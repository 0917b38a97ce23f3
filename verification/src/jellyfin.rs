//! A client of a Jellyfin server: what it asks, and how it reads the answers.
//!
//! Each request is built here, with its address and its parameters; sending
//! it, and decoding what comes back, is left to the caller.

use vstd::prelude::*;

use crate::config::VERSION;
use crate::escape::esc;
use crate::ids::fresh_id;
use crate::json::{object, push_field, Json, Tree};
use crate::models::{hint_bases, AuthResult, BaseItem, BaseView, ItemKind, SearchHint};
use crate::num::push_dec;
use crate::text::{
    chars, cut_end_char, find_after_last, find_char, from_chars, has, join_strings,
    join_strs, opt_view, str_eq, to_lower, trim,
};

verus! {

/// The name under which this client announces itself.
pub const CLIENT_NAME: &'static str = "fin";

/// The fields that are asked for beside the plain ones.
pub const ITEM_FIELDS: &'static str =
    "PrimaryImageAspectRatio,ProductionYear,Overview,Container,MediaSources";

/// How a stream is asked for.
#[derive(Debug, Clone, Copy, PartialEq, Eq, Structural)]
pub enum StreamFormat {
    /// As it is stored.
    Direct,
    /// Cut into pieces and converted.
    Hls,
}

/// Why a request cannot be built.
#[derive(Debug, Clone, Copy, PartialEq, Eq, Structural)]
pub enum ClientError {
    NotAuthenticated,
    NoAccessToken,
}

/// The parameters of a request, by what they hold.
pub open spec fn pair_views(q: Seq<(&'static str, String)>) -> Seq<(Seq<char>, Seq<char>)> {
    q.map_values(|p: (&'static str, String)| (p.0@, p.1@))
}

/// Adds a parameter.
pub fn push_pair(q: &mut Vec<(&'static str, String)>, key: &'static str, value: String)
    ensures
        pair_views(final(q)@) == pair_views(old(q)@).push((key@, value@)),
{
    q.push((key, value));
    proof {
        assert(pair_views(q@) =~= pair_views(old(q)@).push((key@, value@)));
    }
}

/// A request: an address, and parameters for its query.
#[derive(Debug)]
pub struct Get {
    pub url: String,
    pub query: Vec<(&'static str, String)>,
}

/// A request as a value.
pub ghost struct GetView {
    pub url: Seq<char>,
    pub query: Seq<(Seq<char>, Seq<char>)>,
}

impl View for Get {
    type V = GetView;

    open spec fn view(&self) -> GetView {
        GetView { url: self.url@, query: pair_views(self.query@) }
    }
}

/// What a request that may fail comes to.
pub open spec fn get_view(r: Result<Get, ClientError>) -> Result<GetView, ClientError> {
    match r {
        Ok(g) => Ok(g@),
        Err(e) => Err(e),
    }
}

/// A request with a body.
#[derive(Debug)]
pub struct Post {
    pub url: String,
    pub body: Json,
}

/// A number in decimal.
fn decimal(n: u64) -> (r: String)
    ensures
        r@ == crate::num::dec(n as nat),
{
    let mut r: String = String::new();
    push_dec(&mut r, n);
    proof {
        assert(r@ =~= crate::num::dec(n as nat));
    }
    r
}

/// `true` or `false`.
pub open spec fn bool_text(b: bool) -> Seq<char> {
    if b {
        "true"@
    } else {
        "false"@
    }
}

fn bool_word(b: bool) -> (r: String)
    ensures
        r@ == bool_text(b),
{
    if b {
        "true".to_owned()
    } else {
        "false".to_owned()
    }
}

/// The container to ask a stream for: the first one that the server names,
/// else one that every receiver takes.
pub open spec fn container_text(container: Option<Seq<char>>, is_audio: bool) -> Seq<char> {
    let fallback = if is_audio {
        "mp3"@
    } else {
        "mp4"@
    };
    match container {
        Some(c) => {
            let first = crate::text::trimmed(
                match crate::text::index_of(c, ',', 0) {
                    Some(i) => c.take(i),
                    None => c,
                },
            );
            if first.len() > 0 {
                crate::text::lower(first)
            } else {
                fallback
            }
        },
        None => fallback,
    }
}

/// The container to ask an item's stream for.
pub fn source_container(item: &BaseItem, is_audio: bool) -> (r: String)
    ensures
        r@ == container_text(item@.container, is_audio),
{
    if let Some(c) = &item.container {
        let all: Vec<char> = chars(c.as_str());
        let end: usize = match find_char(&all, ',', 0) {
            Some(i) => i,
            None => all.len(),
        };
        let cut: &[char] = vstd::slice::slice_subrange(all.as_slice(), 0, end);
        proof {
            assert(cut@ =~= (match crate::text::index_of(c@, ',', 0) {
                Some(i) => c@.take(i),
                None => c@,
            }));
        }
        let first: &[char] = trim(cut);
        if first.len() > 0 {
            let low: Vec<char> = to_lower(first);
            return from_chars(&low);
        }
    }
    if is_audio {
        "mp3".to_owned()
    } else {
        "mp4".to_owned()
    }
}

/// Parameters as a query: escaped, with `&` between them.
pub open spec fn query_text(q: Seq<(Seq<char>, Seq<char>)>) -> Seq<char>
    decreases q.len(),
{
    if q.len() == 0 {
        Seq::empty()
    } else {
        let one = q.last().0 + "="@ + crate::escape::percent_encoded(q.last().1);
        if q.len() == 1 {
            one
        } else {
            query_text(q.drop_last()) + "&"@ + one
        }
    }
}

/// Writes parameters as a query.
pub fn query_string(q: &Vec<(&'static str, String)>) -> (r: String)
    ensures
        r@ == query_text(pair_views(q@)),
{
    let mut r: String = String::new();
    let mut i: usize = 0;
    let ghost all = pair_views(q@);
    proof {
        assert(all.take(0).len() == 0);
        assert(r@ =~= query_text(all.take(0)));
    }
    while i < q.len()
        invariant
            i <= q@.len(),
            all == pair_views(q@),
            r@ == query_text(all.take(i as int)),
        decreases q@.len() - i,
    {
        proof {
            assert(all.take(i as int + 1).drop_last() =~= all.take(i as int));
            assert(all.take(i as int + 1).last() == (q@[i as int].0@, q@[i as int].1@));
            assert(all.take(i as int + 1).len() == i + 1);
        }
        if i > 0 {
            r.push_str("&");
        }
        r.push_str(q[i].0);
        r.push_str("=");
        let v: String = esc(q[i].1.as_str());
        r.push_str(v.as_str());
        proof {
            assert(r@ =~= query_text(all.take(i as int + 1)));
        }
        i += 1;
    }
    proof {
        assert(all.take(i as int) =~= all);
    }
    r
}

/// The content type that a file name extension stands for; where it stands for
/// none, the path decides between the two that every receiver takes.
pub open spec fn type_of_extension(ext: Seq<char>, on_video_path: bool) -> Seq<char> {
    if ext == "m3u8"@ {
        "application/vnd.apple.mpegurl"@
    } else if ext == "mpd"@ {
        "application/dash+xml"@
    } else if ext == "mp4"@ || ext == "m4v"@ {
        "video/mp4"@
    } else if ext == "mkv"@ {
        "video/x-matroska"@
    } else if ext == "webm"@ {
        "video/webm"@
    } else if ext == "mov"@ {
        "video/quicktime"@
    } else if ext == "ts"@ {
        "video/mp2t"@
    } else if ext == "avi"@ {
        "video/x-msvideo"@
    } else if ext == "mp3"@ {
        "audio/mpeg"@
    } else if ext == "m4a"@ || ext == "aac"@ {
        "audio/aac"@
    } else if ext == "ogg"@ || ext == "oga"@ {
        "audio/ogg"@
    } else if ext == "opus"@ {
        "audio/opus"@
    } else if ext == "flac"@ {
        "audio/flac"@
    } else if ext == "wav"@ {
        "audio/wav"@
    } else if ext == "wma"@ {
        "audio/x-ms-wma"@
    } else if on_video_path {
        "video/mp4"@
    } else {
        "audio/mpeg"@
    }
}

/// The content type of what an address points at, told from the last dot of
/// its path on.
pub open spec fn url_type(url: Seq<char>) -> Seq<char> {
    let path = match crate::text::index_of(url, '?', 0) {
        Some(i) => url.take(i),
        None => url,
    };
    type_of_extension(
        crate::text::lower(path.skip(crate::text::after_last(path, '.', path.len() as int))),
        crate::text::contains(url, "/Videos/"@),
    )
}

/// A client of one server.
#[derive(Debug)]
pub struct JellyfinClient {
    base_url: String,
    device_id: String,
    device_name: String,
    access_token: Option<String>,
    user_id: Option<String>,
}

/// A client as a value.
pub ghost struct ClientView {
    pub base_url: Seq<char>,
    pub device_id: Seq<char>,
    pub device_name: Seq<char>,
    pub access_token: Option<Seq<char>>,
    pub user_id: Option<Seq<char>>,
}

impl View for JellyfinClient {
    type V = ClientView;

    closed spec fn view(&self) -> ClientView {
        ClientView {
            base_url: self.base_url@,
            device_id: self.device_id@,
            device_name: self.device_name@,
            access_token: opt_view(self.access_token),
            user_id: opt_view(self.user_id),
        }
    }
}

/// Whether an item is streamed as audio.
pub open spec fn streams_as_audio(item: BaseView) -> bool {
    item.kind().audio() || item.media_type == Some("Audio"@)
}

/// A parameter where there is a value for it.
pub open spec fn opt_param(key: Seq<char>, value: Option<Seq<char>>) -> Seq<
    (Seq<char>, Seq<char>),
> {
    match value {
        Some(v) => seq![(key, v)],
        None => Seq::empty(),
    }
}

/// Kinds as a parameter, where there are any.
pub open spec fn types_param(key: Seq<char>, types: Seq<Seq<char>>) -> Seq<
    (Seq<char>, Seq<char>),
> {
    if types.len() == 0 {
        Seq::empty()
    } else {
        seq![(key, crate::text::joined(types, ","@))]
    }
}

/// The string behind an optional slice.
pub open spec fn slice_view(o: Option<&str>) -> Option<Seq<char>> {
    match o {
        Some(s) => Some(s@),
        None => None,
    }
}

impl ClientView {
    /// How the client names itself to the server.
    pub open spec fn authorization(self) -> Seq<char> {
        "MediaBrowser Client=\""@ + CLIENT_NAME@ + "\", Device=\""@ + self.device_name
            + "\", DeviceId=\""@ + self.device_id + "\", Version=\""@ + VERSION@ + "\""@ + (
        match self.access_token {
            Some(t) => ", Token=\""@ + t + "\""@,
            None => Seq::empty(),
        })
    }

    /// The path of an item's stream.
    pub open spec fn stream_path(self, item: BaseView, format: StreamFormat) -> Seq<char> {
        let audio = streams_as_audio(item);
        let root = if audio {
            "/Audio/"@
        } else {
            "/Videos/"@
        };
        match format {
            StreamFormat::Hls => root + item.id + "/main.m3u8"@,
            StreamFormat::Direct => root + item.id + "/stream."@ + container_text(
                item.container,
                audio,
            ),
        }
    }

    /// The parameters of an item's stream.
    pub open spec fn stream_params(
        self,
        token: Seq<char>,
        item: BaseView,
        format: StreamFormat,
        session: Seq<char>,
    ) -> Seq<(Seq<char>, Seq<char>)> {
        let base = seq![
            ("api_key"@, token),
            ("DeviceId"@, self.device_id),
            ("PlaySessionId"@, session),
        ];
        match format {
            StreamFormat::Direct => base + seq![
                ("Static"@, "true"@),
                ("MediaSourceId"@, item.id),
            ],
            StreamFormat::Hls => base,
        }
    }

    /// The address of an item's stream.
    pub open spec fn stream_text(
        self,
        token: Seq<char>,
        item: BaseView,
        format: StreamFormat,
        session: Seq<char>,
    ) -> Seq<char> {
        self.base_url + self.stream_path(item, format) + "?"@ + query_text(
            self.stream_params(token, item, format, session),
        )
    }

    /// A request for a list under the user's own address.
    pub open spec fn user_get(
        self,
        tail: Seq<char>,
        query: Seq<(Seq<char>, Seq<char>)>,
    ) -> Result<GetView, ClientError> {
        match self.user_id {
            Some(u) => Ok(
                GetView { url: self.base_url + "/Users/"@ + u + tail, query },
            ),
            None => Err(ClientError::NotAuthenticated),
        }
    }

    /// The address of a playlist's entries.
    pub open spec fn playlist_url(self, id: Seq<char>) -> Seq<char> {
        self.base_url + "/Playlists/"@ + id + "/Items"@
    }
}

/// The parameters of a list of items.
pub open spec fn items_query(
    parent: Option<Seq<char>>,
    types: Seq<Seq<char>>,
    recursive: bool,
    sort_by: Option<Seq<char>>,
    limit: Option<u32>,
) -> Seq<(Seq<char>, Seq<char>)> {
    seq![("Fields"@, ITEM_FIELDS@), ("Recursive"@, bool_text(recursive))] + opt_param(
        "ParentId"@,
        parent,
    ) + types_param("IncludeItemTypes"@, types) + (match sort_by {
        Some(s) => seq![("SortBy"@, s), ("SortOrder"@, "Ascending"@)],
        None => Seq::empty(),
    }) + (match limit {
        Some(l) => seq![("Limit"@, crate::num::dec(l as nat))],
        None => Seq::empty(),
    })
}

/// The parameters of a quick search.
pub open spec fn hints_query(
    term: Seq<char>,
    user: Seq<char>,
    types: Seq<Seq<char>>,
    limit: nat,
) -> Seq<(Seq<char>, Seq<char>)> {
    seq![
        ("searchTerm"@, term),
        ("userId"@, user),
        ("limit"@, crate::num::dec(limit)),
        ("includePeople"@, "false"@),
        ("includeGenres"@, "false"@),
        ("includeStudios"@, "false"@),
        ("includeArtists"@, "true"@),
        ("includeMedia"@, "true"@),
    ] + types_param("includeItemTypes"@, types)
}

/// The parameters of a thorough search.
pub open spec fn fallback_query(term: Seq<char>, types: Seq<Seq<char>>, limit: nat) -> Seq<
    (Seq<char>, Seq<char>),
> {
    seq![
        ("searchTerm"@, term),
        ("recursive"@, "true"@),
        ("limit"@, crate::num::dec(limit)),
        ("fields"@, ITEM_FIELDS@),
    ] + types_param("includeItemTypes"@, types)
}

/// What a login says.
pub open spec fn login_body(username: Seq<char>, password: Seq<char>) -> Tree {
    Tree::Object(seq![("Username"@, Tree::Text(username)), ("Pw"@, Tree::Text(password))])
}

/// What a report says of an item that has begun to play.
pub open spec fn started_body(id: Seq<char>, session: Seq<char>) -> Tree {
    Tree::Object(
        seq![
            ("ItemId"@, Tree::Text(id)),
            ("PlaySessionId"@, Tree::Text(session)),
            ("CanSeek"@, Tree::Bool(true)),
        ],
    )
}

/// What a report says of how far an item has played.
pub open spec fn progress_body(
    id: Seq<char>,
    session: Seq<char>,
    ticks: int,
    paused: bool,
) -> Tree {
    Tree::Object(
        seq![
            ("ItemId"@, Tree::Text(id)),
            ("PlaySessionId"@, Tree::Text(session)),
            ("PositionTicks"@, Tree::Number(crate::num::dec_int(ticks))),
            ("IsPaused"@, Tree::Bool(paused)),
            ("CanSeek"@, Tree::Bool(true)),
            ("EventName"@, Tree::Text("TimeUpdate"@)),
        ],
    )
}

/// What a report says of an item that has ended.
pub open spec fn stopped_body(id: Seq<char>, session: Seq<char>, ticks: int) -> Tree {
    Tree::Object(
        seq![
            ("ItemId"@, Tree::Text(id)),
            ("PlaySessionId"@, Tree::Text(session)),
            ("PositionTicks"@, Tree::Number(crate::num::dec_int(ticks))),
        ],
    )
}

impl JellyfinClient {
    /// A client that is not logged in, with a device id of its own.
    pub fn new(base_url: &str, device_name: &str) -> (r: Self)
        ensures
            r@.base_url == crate::text::trim_end_char(base_url@, '/'),
            r@.device_name == device_name@,
            crate::ids::is_uuid(r@.device_id),
            r@.access_token is None,
            r@.user_id is None,
    {
        let all: Vec<char> = chars(base_url);
        JellyfinClient {
            base_url: from_chars(cut_end_char(&all, '/')),
            device_id: fresh_id(),
            device_name: device_name.to_owned(),
            access_token: None,
            user_id: None,
        }
    }

    /// A client that is logged in already.
    pub fn with_credentials(
        base_url: &str,
        device_name: &str,
        device_id: &str,
        user_id: &str,
        access_token: &str,
    ) -> (r: Self)
        ensures
            r@ == (ClientView {
                base_url: crate::text::trim_end_char(base_url@, '/'),
                device_id: device_id@,
                device_name: device_name@,
                access_token: Some(access_token@),
                user_id: Some(user_id@),
            }),
    {
        let mut c = JellyfinClient::new(base_url, device_name);
        c.device_id = device_id.to_owned();
        c.user_id = Some(user_id.to_owned());
        c.access_token = Some(access_token.to_owned());
        c
    }

    pub fn base_url(&self) -> (r: &str)
        ensures
            r@ == self@.base_url,
    {
        self.base_url.as_str()
    }

    pub fn device_id(&self) -> (r: &str)
        ensures
            r@ == self@.device_id,
    {
        self.device_id.as_str()
    }

    pub fn access_token(&self) -> (r: Option<&str>)
        ensures
            slice_view(r) == self@.access_token,
    {
        match &self.access_token {
            Some(t) => Some(t.as_str()),
            None => None,
        }
    }

    pub fn user_id(&self) -> (r: Option<&str>)
        ensures
            slice_view(r) == self@.user_id,
    {
        match &self.user_id {
            Some(t) => Some(t.as_str()),
            None => None,
        }
    }

    /// How the client names itself to the server.
    pub fn auth_header(&self) -> (r: String)
        ensures
            r@ == self@.authorization(),
    {
        let mut r: String = "MediaBrowser Client=\"".to_owned();
        r.push_str(CLIENT_NAME);
        r.push_str("\", Device=\"");
        r.push_str(self.device_name.as_str());
        r.push_str("\", DeviceId=\"");
        r.push_str(self.device_id.as_str());
        r.push_str("\", Version=\"");
        r.push_str(VERSION);
        r.push_str("\"");
        let ghost head = r@;
        if let Some(t) = &self.access_token {
            let mut tail: String = ", Token=\"".to_owned();
            tail.push_str(t.as_str());
            tail.push_str("\"");
            r.push_str(tail.as_str());
        } else {
            proof {
                assert(r@ =~= head + Seq::<char>::empty());
            }
        }
        r
    }

    /// The address of a path on the server.
    pub fn url(&self, path: &str) -> (r: String)
        ensures
            r@ == self@.base_url + path@,
    {
        let mut r: String = self.base_url.clone();
        r.push_str(path);
        r
    }

    /// The request that logs a user in.
    pub fn login(&self, username: &str, password: &str) -> (r: Post)
        ensures
            r.body@ == login_body(username@, password@),
            r.url@ == self@.base_url + "/Users/AuthenticateByName"@,
            r.body@ == Tree::Object(
                seq![("Username"@, Tree::Text(username@)), ("Pw"@, Tree::Text(password@))],
            ),
    {
        let mut fields: Vec<(String, Json)> = Vec::new();
        push_field(&mut fields, "Username", Json::Text(username.to_owned()));
        push_field(&mut fields, "Pw", Json::Text(password.to_owned()));
        let ghost views = crate::json::field_views(fields@);
        let body = object(fields);
        proof {
            assert(views =~= seq![
                ("Username"@, Tree::Text(username@)),
                ("Pw"@, Tree::Text(password@)),
            ]);
        }
        Post { url: self.url("/Users/AuthenticateByName"), body }
    }

    /// Takes over a login.
    pub fn logged_in(&mut self, auth: &AuthResult)
        ensures
            final(self)@ == (ClientView {
                access_token: Some(auth.access_token@),
                user_id: Some(auth.user.id@),
                ..old(self)@
            }),
    {
        self.access_token = Some(auth.access_token.clone());
        self.user_id = Some(auth.user.id.clone());
    }

    fn user_get(&self, tail: &str, query: Vec<(&'static str, String)>) -> (r: Result<
        Get,
        ClientError,
    >)
        ensures
            get_view(r) == self@.user_get(tail@, pair_views(query@)),
    {
        match &self.user_id {
            Some(u) => {
                let mut url: String = self.url("/Users/");
                url.push_str(u.as_str());
                url.push_str(tail);
                Ok(Get { url, query })
            },
            None => Err(ClientError::NotAuthenticated),
        }
    }

    /// The parts of the user's library.
    pub fn views(&self) -> (r: Result<Get, ClientError>)
        ensures
            get_view(r) == self@.user_get("/Views"@, Seq::empty()),
    {
        let q: Vec<(&'static str, String)> = Vec::new();
        proof {
            assert(pair_views(q@) =~= Seq::empty());
        }
        self.user_get("/Views", q)
    }

    /// The children of an item, or everything.
    pub fn items(
        &self,
        parent_id: Option<&str>,
        include_types: &[&str],
        recursive: bool,
        sort_by: Option<&str>,
        limit: Option<u32>,
    ) -> (r: Result<Get, ClientError>)
        ensures
            get_view(r) == self@.user_get(
                "/Items"@,
                items_query(
                    slice_view(parent_id),
                    crate::text::str_views(include_types@),
                    recursive,
                    slice_view(sort_by),
                    limit,
                ),
            ),
    {
        let mut q: Vec<(&'static str, String)> = Vec::new();
        push_pair(&mut q, "Fields", ITEM_FIELDS.to_owned());
        push_pair(&mut q, "Recursive", bool_word(recursive));
        if let Some(p) = parent_id {
            push_pair(&mut q, "ParentId", p.to_owned());
        }
        if include_types.len() > 0 {
            push_pair(&mut q, "IncludeItemTypes", join_strs(include_types, ","));
        }
        if let Some(s) = sort_by {
            push_pair(&mut q, "SortBy", s.to_owned());
            push_pair(&mut q, "SortOrder", "Ascending".to_owned());
        }
        if let Some(l) = limit {
            push_pair(&mut q, "Limit", decimal(l as u64));
        }
        proof {
            assert(pair_views(q@) =~= items_query(
                slice_view(parent_id),
                crate::text::str_views(include_types@),
                recursive,
                slice_view(sort_by),
                limit,
            ));
        }
        self.user_get("/Items", q)
    }

    /// What the user has begun to watch or hear.
    pub fn resume(&self, limit: u32) -> (r: Result<Get, ClientError>)
        ensures
            get_view(r) == self@.user_get(
                "/Items/Resume"@,
                seq![("Limit"@, crate::num::dec(limit as nat))],
            ),
    {
        let mut q: Vec<(&'static str, String)> = Vec::new();
        push_pair(&mut q, "Limit", decimal(limit as u64));
        proof {
            assert(pair_views(q@) =~= seq![("Limit"@, crate::num::dec(limit as nat))]);
        }
        self.user_get("/Items/Resume", q)
    }

    /// What came last to the library.
    pub fn latest(&self, parent_id: Option<&str>, limit: u32) -> (r: Result<Get, ClientError>)
        ensures
            get_view(r) == self@.user_get(
                "/Items/Latest"@,
                seq![
                    ("Limit"@, crate::num::dec(limit as nat)),
                    ("Fields"@, "ProductionYear,Container"@),
                ] + opt_param("ParentId"@, slice_view(parent_id)),
            ),
    {
        let mut q: Vec<(&'static str, String)> = Vec::new();
        push_pair(&mut q, "Limit", decimal(limit as u64));
        push_pair(&mut q, "Fields", "ProductionYear,Container".to_owned());
        if let Some(p) = parent_id {
            push_pair(&mut q, "ParentId", p.to_owned());
        }
        proof {
            assert(pair_views(q@) =~= seq![
                ("Limit"@, crate::num::dec(limit as nat)),
                ("Fields"@, "ProductionYear,Container"@),
            ] + opt_param("ParentId"@, slice_view(parent_id)));
        }
        self.user_get("/Items/Latest", q)
    }

    /// A quick search.
    pub fn search(&self, term: &str, include_types: &[&str], limit: u32) -> (r: Result<
        Get,
        ClientError,
    >)
        ensures
            get_view(r) == (match self@.user_id {
                Some(u) => Ok::<GetView, ClientError>(
                    GetView {
                        url: self@.base_url + "/Search/Hints"@,
                        query: hints_query(
                            term@,
                            u,
                            crate::text::str_views(include_types@),
                            limit as nat,
                        ),
                    },
                ),
                None => Err(ClientError::NotAuthenticated),
            }),
    {
        let user: String = match &self.user_id {
            Some(u) => u.clone(),
            None => {
                return Err(ClientError::NotAuthenticated);
            },
        };
        let ghost u = user@;
        let mut q: Vec<(&'static str, String)> = Vec::new();
        push_pair(&mut q, "searchTerm", term.to_owned());
        push_pair(&mut q, "userId", user);
        push_pair(&mut q, "limit", decimal(limit as u64));
        push_pair(&mut q, "includePeople", "false".to_owned());
        push_pair(&mut q, "includeGenres", "false".to_owned());
        push_pair(&mut q, "includeStudios", "false".to_owned());
        push_pair(&mut q, "includeArtists", "true".to_owned());
        push_pair(&mut q, "includeMedia", "true".to_owned());
        if include_types.len() > 0 {
            push_pair(&mut q, "includeItemTypes", join_strs(include_types, ","));
        }
        proof {
            assert(pair_views(q@) =~= hints_query(
                term@,
                u,
                crate::text::str_views(include_types@),
                limit as nat,
            ));
        }
        Ok(Get { url: self.url("/Search/Hints"), query: q })
    }

    /// The search that is made where the quick one found nothing.
    pub fn search_fallback(&self, term: &str, include_types: &[&str], limit: u32) -> (r: Result<
        Get,
        ClientError,
    >)
        ensures
            get_view(r) == self@.user_get(
                "/Items"@,
                fallback_query(term@, crate::text::str_views(include_types@), limit as nat),
            ),
    {
        let mut q: Vec<(&'static str, String)> = Vec::new();
        push_pair(&mut q, "searchTerm", term.to_owned());
        push_pair(&mut q, "recursive", "true".to_owned());
        push_pair(&mut q, "limit", decimal(limit as u64));
        push_pair(&mut q, "fields", ITEM_FIELDS.to_owned());
        if include_types.len() > 0 {
            push_pair(&mut q, "includeItemTypes", join_strs(include_types, ","));
        }
        proof {
            assert(pair_views(q@) =~= fallback_query(
                term@,
                crate::text::str_views(include_types@),
                limit as nat,
            ));
        }
        self.user_get("/Items", q)
    }

    /// All playlists of the user.
    pub fn playlists(&self) -> (r: Result<Get, ClientError>)
        ensures
            get_view(r) == self@.user_get(
                "/Items"@,
                items_query(None, seq!["Playlist"@], true, Some("SortName"@), None),
            ),
    {
        let types: [&str; 1] = ["Playlist"];
        proof {
            assert(crate::text::str_views(types@) =~= seq!["Playlist"@]);
        }
        self.items(None, &types, true, Some("SortName"), None)
    }

    /// The entries of a playlist.
    pub fn playlist_items(&self, playlist_id: &str) -> (r: Result<Get, ClientError>)
        ensures
            get_view(r) == (match self@.user_id {
                Some(u) => Ok::<GetView, ClientError>(
                    GetView {
                        url: self@.playlist_url(playlist_id@),
                        query: seq![("UserId"@, u)],
                    },
                ),
                None => Err(ClientError::NotAuthenticated),
            }),
    {
        match &self.user_id {
            Some(u) => {
                let mut q: Vec<(&'static str, String)> = Vec::new();
                push_pair(&mut q, "UserId", u.clone());
                proof {
                    assert(pair_views(q@) =~= seq![("UserId"@, u@)]);
                }
                Ok(Get { url: self.playlist_url(playlist_id), query: q })
            },
            None => Err(ClientError::NotAuthenticated),
        }
    }

    fn playlist_url(&self, id: &str) -> (r: String)
        ensures
            r@ == self@.playlist_url(id@),
    {
        let mut url: String = self.url("/Playlists/");
        url.push_str(id);
        url.push_str("/Items");
        url
    }

    /// The request for a new playlist.
    pub fn create_playlist(&self, name: &str, media_type: &str, item_ids: &[String]) -> (r: Result<
        Post,
        ClientError,
    >)
        ensures
            match r {
                Ok(p) => {
                    &&& self@.user_id is Some
                    &&& p.url@ == self@.base_url + "/Playlists"@
                    &&& p.body@ == Tree::Object(
                        seq![
                            ("Name"@, Tree::Text(name@)),
                            ("Ids"@, texts(crate::text::string_views(item_ids@))),
                            ("UserId"@, Tree::Text(self@.user_id->0)),
                            ("MediaType"@, Tree::Text(media_type@)),
                        ],
                    )
                },
                Err(e) => self@.user_id is None && e == ClientError::NotAuthenticated,
            },
    {
        let user: String = match &self.user_id {
            Some(u) => u.clone(),
            None => {
                return Err(ClientError::NotAuthenticated);
            },
        };
        let mut fields: Vec<(String, Json)> = Vec::new();
        push_field(&mut fields, "Name", Json::Text(name.to_owned()));
        push_field(&mut fields, "Ids", text_array(item_ids));
        push_field(&mut fields, "UserId", Json::Text(user));
        push_field(&mut fields, "MediaType", Json::Text(media_type.to_owned()));
        let ghost views = crate::json::field_views(fields@);
        let body = object(fields);
        proof {
            assert(views =~= seq![
                ("Name"@, Tree::Text(name@)),
                ("Ids"@, texts(crate::text::string_views(item_ids@))),
                ("UserId"@, Tree::Text(self@.user_id->0)),
                ("MediaType"@, Tree::Text(media_type@)),
            ]);
        }
        Ok(Post { url: self.url("/Playlists"), body })
    }

    /// The request that adds items to a playlist.
    pub fn add_to_playlist(&self, playlist_id: &str, item_ids: &[String]) -> (r: Result<
        Get,
        ClientError,
    >)
        ensures
            get_view(r) == (match self@.user_id {
                Some(u) => Ok::<GetView, ClientError>(
                    GetView {
                        url: self@.playlist_url(playlist_id@),
                        query: seq![
                            (
                                "Ids"@,
                                crate::text::joined(
                                    crate::text::string_views(item_ids@),
                                    ","@,
                                ),
                            ),
                            ("UserId"@, u),
                        ],
                    },
                ),
                None => Err(ClientError::NotAuthenticated),
            }),
    {
        match &self.user_id {
            Some(u) => {
                let mut q: Vec<(&'static str, String)> = Vec::new();
                push_pair(&mut q, "Ids", join_strings(item_ids, ","));
                push_pair(&mut q, "UserId", u.clone());
                proof {
                    assert(pair_views(q@) =~= seq![
                        (
                            "Ids"@,
                            crate::text::joined(crate::text::string_views(item_ids@), ","@),
                        ),
                        ("UserId"@, u@),
                    ]);
                }
                Ok(Get { url: self.playlist_url(playlist_id), query: q })
            },
            None => Err(ClientError::NotAuthenticated),
        }
    }

    /// The request that takes entries out of a playlist.
    pub fn remove_from_playlist(&self, playlist_id: &str, entry_ids: &[String]) -> (r: Get)
        ensures
            r@ == (GetView {
                url: self@.playlist_url(playlist_id@),
                query: seq![
                    (
                        "EntryIds"@,
                        crate::text::joined(crate::text::string_views(entry_ids@), ","@),
                    ),
                ],
            }),
    {
        let mut q: Vec<(&'static str, String)> = Vec::new();
        push_pair(&mut q, "EntryIds", join_strings(entry_ids, ","));
        proof {
            assert(pair_views(q@) =~= seq![
                ("EntryIds"@, crate::text::joined(crate::text::string_views(entry_ids@), ","@)),
            ]);
        }
        Get { url: self.playlist_url(playlist_id), query: q }
    }

    /// The address of an item's stream within a given session.
    pub fn stream_url_with(&self, item: &BaseItem, format: StreamFormat, session: &str) -> (r:
        Result<String, ClientError>)
        ensures
            match r {
                Ok(url) => {
                    &&& self@.access_token is Some
                    &&& url@ == self@.stream_text(
                        self@.access_token->0,
                        item@,
                        format,
                        session@,
                    )
                },
                Err(e) => self@.access_token is None && e == ClientError::NoAccessToken,
            },
    {
        let token: String = match &self.access_token {
            Some(t) => t.clone(),
            None => {
                return Err(ClientError::NoAccessToken);
            },
        };
        let ghost tok = token@;
        let kind: ItemKind = item.kind();
        let is_audio: bool = kind.is_audio() || match &item.media_type {
            Some(m) => str_eq(m.as_str(), "Audio"),
            None => false,
        };
        let mut path: String = if is_audio {
            "/Audio/".to_owned()
        } else {
            "/Videos/".to_owned()
        };
        path.push_str(item.id.as_str());
        match format {
            StreamFormat::Hls => {
                path.push_str("/main.m3u8");
            },
            StreamFormat::Direct => {
                path.push_str("/stream.");
                let container: String = source_container(item, is_audio);
                path.push_str(container.as_str());
            },
        }
        let mut params: Vec<(&'static str, String)> = Vec::new();
        push_pair(&mut params, "api_key", token);
        push_pair(&mut params, "DeviceId", self.device_id.clone());
        push_pair(&mut params, "PlaySessionId", session.to_owned());
        if format == StreamFormat::Direct {
            push_pair(&mut params, "Static", "true".to_owned());
            push_pair(&mut params, "MediaSourceId", item.id.clone());
        }
        proof {
            assert(pair_views(params@) =~= self@.stream_params(tok, item@, format, session@));
        }
        let qs: String = query_string(&params);
        let mut url: String = self.base_url.clone();
        url.push_str(path.as_str());
        url.push_str("?");
        url.push_str(qs.as_str());
        Ok(url)
    }

    /// The address of an item's stream, within a session of its own.
    pub fn stream_url(&self, item: &BaseItem, format: StreamFormat) -> (r: Result<
        String,
        ClientError,
    >)
        ensures
            match r {
                Ok(url) => {
                    &&& self@.access_token is Some
                    &&& exists|session: Seq<char>|
                        crate::ids::is_uuid(session) && url@ == #[trigger] self@.stream_text(
                            self@.access_token->0,
                            item@,
                            format,
                            session,
                        )
                },
                Err(e) => self@.access_token is None && e == ClientError::NoAccessToken,
            },
    {
        let session: String = fresh_id();
        self.stream_url_with(item, format, session.as_str())
    }

    /// The content type of what an address points at.
    pub fn content_type_for_url(url: &str) -> (r: &'static str)
        ensures
            r@ == url_type(url@),
    {
        let all: Vec<char> = chars(url);
        let end: usize = match find_char(&all, '?', 0) {
            Some(i) => i,
            None => all.len(),
        };
        let path: &[char] = vstd::slice::slice_subrange(all.as_slice(), 0, end);
        let ghost p = match crate::text::index_of(url@, '?', 0) {
            Some(i) => url@.take(i),
            None => url@,
        };
        proof {
            assert(path@ =~= p);
        }
        let start: usize = find_after_last(path, '.');
        let tail: &[char] = vstd::slice::slice_subrange(path, start, path.len());
        proof {
            assert(tail@ =~= p.skip(start as int));
        }
        let low: Vec<char> = to_lower(tail);
        let ext: String = from_chars(&low);
        let ext: &str = ext.as_str();
        if str_eq(ext, "m3u8") {
            "application/vnd.apple.mpegurl"
        } else if str_eq(ext, "mpd") {
            "application/dash+xml"
        } else if str_eq(ext, "mp4") || str_eq(ext, "m4v") {
            "video/mp4"
        } else if str_eq(ext, "mkv") {
            "video/x-matroska"
        } else if str_eq(ext, "webm") {
            "video/webm"
        } else if str_eq(ext, "mov") {
            "video/quicktime"
        } else if str_eq(ext, "ts") {
            "video/mp2t"
        } else if str_eq(ext, "avi") {
            "video/x-msvideo"
        } else if str_eq(ext, "mp3") {
            "audio/mpeg"
        } else if str_eq(ext, "m4a") || str_eq(ext, "aac") {
            "audio/aac"
        } else if str_eq(ext, "ogg") || str_eq(ext, "oga") {
            "audio/ogg"
        } else if str_eq(ext, "opus") {
            "audio/opus"
        } else if str_eq(ext, "flac") {
            "audio/flac"
        } else if str_eq(ext, "wav") {
            "audio/wav"
        } else if str_eq(ext, "wma") {
            "audio/x-ms-wma"
        } else if has(url, "/Videos/") {
            "video/mp4"
        } else {
            "audio/mpeg"
        }
    }

    /// The address of an item's picture.
    pub fn image_url(&self, item_id: &str, tag: &str, width: u32) -> (r: String)
        ensures
            r@ == self@.base_url + "/Items/"@ + item_id@ + "/Images/Primary?tag="@ + tag@
                + "&fillWidth="@ + crate::num::dec(width as nat) + "&format=jpg"@,
    {
        let mut r: String = self.url("/Items/");
        r.push_str(item_id);
        r.push_str("/Images/Primary?tag=");
        r.push_str(tag);
        r.push_str("&fillWidth=");
        push_dec(&mut r, width as u64);
        r.push_str("&format=jpg");
        r
    }

    /// The report that an item has begun to play.
    pub fn report_started(&self, item: &BaseItem, session_id: &str) -> (r: Post)
        ensures
            r.body@ == started_body(item@.id, session_id@),
            r.url@ == self@.base_url + "/Sessions/Playing"@,
            r.body@ == Tree::Object(
                seq![
                    ("ItemId"@, Tree::Text(item@.id)),
                    ("PlaySessionId"@, Tree::Text(session_id@)),
                    ("CanSeek"@, Tree::Bool(true)),
                ],
            ),
    {
        let mut fields: Vec<(String, Json)> = session_fields(item, session_id);
        push_field(&mut fields, "CanSeek", Json::Bool(true));
        let ghost views = crate::json::field_views(fields@);
        let body = object(fields);
        proof {
            assert(views =~= seq![
                ("ItemId"@, Tree::Text(item@.id)),
                ("PlaySessionId"@, Tree::Text(session_id@)),
                ("CanSeek"@, Tree::Bool(true)),
            ]);
        }
        Post { url: self.url("/Sessions/Playing"), body }
    }

    /// The report of how far an item has played.
    pub fn report_progress(
        &self,
        item: &BaseItem,
        session_id: &str,
        position_ticks: i64,
        paused: bool,
    ) -> (r: Post)
        ensures
            r.url@ == self@.base_url + "/Sessions/Playing/Progress"@,
            r.body@ == progress_body(item@.id, session_id@, position_ticks as int, paused),
            r.body@ == Tree::Object(
                seq![
                    ("ItemId"@, Tree::Text(item@.id)),
                    ("PlaySessionId"@, Tree::Text(session_id@)),
                    ("PositionTicks"@, Tree::Number(crate::num::dec_int(position_ticks as int))),
                    ("IsPaused"@, Tree::Bool(paused)),
                    ("CanSeek"@, Tree::Bool(true)),
                    ("EventName"@, Tree::Text("TimeUpdate"@)),
                ],
            ),
    {
        let mut fields: Vec<(String, Json)> = session_fields(item, session_id);
        push_field(&mut fields, "PositionTicks", number(position_ticks));
        push_field(&mut fields, "IsPaused", Json::Bool(paused));
        push_field(&mut fields, "CanSeek", Json::Bool(true));
        push_field(&mut fields, "EventName", Json::Text("TimeUpdate".to_owned()));
        let ghost views = crate::json::field_views(fields@);
        let body = object(fields);
        proof {
            assert(views =~= seq![
                ("ItemId"@, Tree::Text(item@.id)),
                ("PlaySessionId"@, Tree::Text(session_id@)),
                ("PositionTicks"@, Tree::Number(crate::num::dec_int(position_ticks as int))),
                ("IsPaused"@, Tree::Bool(paused)),
                ("CanSeek"@, Tree::Bool(true)),
                ("EventName"@, Tree::Text("TimeUpdate"@)),
            ]);
        }
        Post { url: self.url("/Sessions/Playing/Progress"), body }
    }

    /// The report that an item has ended.
    pub fn report_stopped(&self, item: &BaseItem, session_id: &str, position_ticks: i64) -> (r:
        Post)
        ensures
            r.url@ == self@.base_url + "/Sessions/Playing/Stopped"@,
            r.body@ == stopped_body(item@.id, session_id@, position_ticks as int),
            r.body@ == Tree::Object(
                seq![
                    ("ItemId"@, Tree::Text(item@.id)),
                    ("PlaySessionId"@, Tree::Text(session_id@)),
                    ("PositionTicks"@, Tree::Number(crate::num::dec_int(position_ticks as int))),
                ],
            ),
    {
        let mut fields: Vec<(String, Json)> = session_fields(item, session_id);
        push_field(&mut fields, "PositionTicks", number(position_ticks));
        let ghost views = crate::json::field_views(fields@);
        let body = object(fields);
        proof {
            assert(views =~= seq![
                ("ItemId"@, Tree::Text(item@.id)),
                ("PlaySessionId"@, Tree::Text(session_id@)),
                ("PositionTicks"@, Tree::Number(crate::num::dec_int(position_ticks as int))),
            ]);
        }
        Post { url: self.url("/Sessions/Playing/Stopped"), body }
    }
}

/// Texts as a JSON list.
pub open spec fn texts(v: Seq<Seq<char>>) -> Tree {
    Tree::Array(v.map_values(|s: Seq<char>| Tree::Text(s)))
}

fn text_array(v: &[String]) -> (r: Json)
    ensures
        r@ == texts(crate::text::string_views(v@)),
{
    let mut out: Vec<Json> = Vec::new();
    let mut i: usize = 0;
    while i < v.len()
        invariant
            i <= v@.len(),
            out@.len() == i,
            forall|j: int| 0 <= j < i ==> (#[trigger] out@[j])@ == Tree::Text(v@[j]@),
        decreases v@.len() - i,
    {
        out.push(Json::Text(v[i].clone()));
        i += 1;
    }
    let r = Json::Array(out);
    proof {
        assert(r@->Array_0 =~= texts(crate::text::string_views(v@))->Array_0);
    }
    r
}

fn number(n: i64) -> (r: Json)
    ensures
        r@ == Tree::Number(crate::num::dec_int(n as int)),
{
    let mut s: String = String::new();
    crate::num::push_int(&mut s, n);
    proof {
        assert(s@ =~= crate::num::dec_int(n as int));
    }
    Json::Number(s)
}

fn session_fields(item: &BaseItem, session_id: &str) -> (r: Vec<(String, Json)>)
    ensures
        crate::json::field_views(r@) == seq![
            ("ItemId"@, Tree::Text(item@.id)),
            ("PlaySessionId"@, Tree::Text(session_id@)),
        ],
{
    let mut fields: Vec<(String, Json)> = Vec::new();
    push_field(&mut fields, "ItemId", Json::Text(item.id.clone()));
    push_field(&mut fields, "PlaySessionId", Json::Text(session_id.to_owned()));
    proof {
        assert(crate::json::field_views(fields@) =~= seq![
            ("ItemId"@, Tree::Text(item@.id)),
            ("PlaySessionId"@, Tree::Text(session_id@)),
        ]);
    }
    fields
}

/// The items of a quick search, where it found any; otherwise the thorough
/// search has to be made.
pub fn quick_hits(hits: Vec<SearchHint>) -> (r: Option<Vec<BaseItem>>)
    ensures
        match r {
            Some(items) => hits@.len() > 0 && crate::models::base_views(items@) == hint_bases(
                hits@,
            ),
            None => hits@.len() == 0,
        },
{
    let ghost all = hits@;
    if hits.len() == 0 {
        return None;
    }
    let mut hits: Vec<SearchHint> = hits;
    let mut items: Vec<BaseItem> = Vec::new();
    let n: usize = hits.len();
    let mut i: usize = 0;
    while i < n
        invariant
            i <= n,
            n == all.len(),
            hits@ == all.skip(i as int),
            items@.len() == i,
            forall|j: int| 0 <= j < i ==> (#[trigger] items@[j])@ == all[j].as_base(),
        decreases n - i,
    {
        let h: SearchHint = hits.remove(0);
        items.push(h.into_base_item());
        i += 1;
        proof {
            assert(hits@ =~= all.skip(i as int));
        }
    }
    proof {
        assert(crate::models::base_views(items@) =~= hint_bases(all));
    }
    Some(items)
}

/// Text up to the first question mark, which follows at the end of `head`.
proof fn lemma_cut_query(head: Seq<char>, rest: Seq<char>)
    requires
        !head.contains('?'),
    ensures
        crate::text::index_of(head + "?"@ + rest, '?', 0) == Some(head.len() as int),
        (head + "?"@ + rest).take(head.len() as int) == head,
{
    reveal_strlit("?");
    let s = head + "?"@ + rest;
    crate::text::lemma_index_of(s, '?', 0);
    assert(s[head.len() as int] == '?');
    assert forall|j: int| 0 <= j < head.len() implies s[j] != '?' by {
        assert(s[j] == head[j]);
        assert(head.contains(head[j]));
    }
    assert(s.take(head.len() as int) =~= head);
}

/// What follows the last dot, where it holds no dot itself.
proof fn lemma_extension(head: Seq<char>, ext: Seq<char>)
    requires
        !ext.contains('.'),
        head.len() > 0,
        head.last() == '.',
    ensures
        (head + ext).skip(
            crate::text::after_last(head + ext, '.', (head + ext).len() as int),
        ) == ext,
{
    let s = head + ext;
    lemma_after_last(s, head.len() as int, s.len() as int, ext);
    assert(s.skip(head.len() as int) =~= ext);
}

proof fn lemma_after_last(s: Seq<char>, at: int, end: int, ext: Seq<char>)
    requires
        0 < at <= end <= s.len(),
        s[at - 1] == '.',
        !ext.contains('.'),
        s.len() == at + ext.len(),
        forall|j: int| at <= j < s.len() ==> s[j] == ext[j - at],
    ensures
        crate::text::after_last(s, '.', end) == at,
    decreases end,
{
    if end > at {
        assert(s[end - 1] == ext[end - 1 - at]);
        assert(ext.contains(ext[end - 1 - at]));
        lemma_after_last(s, at, end - 1, ext);
    }
}

/// The content type that is told from a stream's address is the one of the
/// container that the stream was asked for in; a stream in pieces is a
/// playlist.
pub proof fn lemma_stream_type(
    c: ClientView,
    token: Seq<char>,
    item: BaseView,
    format: StreamFormat,
    session: Seq<char>,
)
    requires
        !c.base_url.contains('?'),
        !item.id.contains('?'),
        !container_text(item.container, streams_as_audio(item)).contains('?'),
        !container_text(item.container, streams_as_audio(item)).contains('.'),
    ensures
        ({
            let url = c.stream_text(token, item, format, session);
            url_type(url) == type_of_extension(
                crate::text::lower(
                    match format {
                        StreamFormat::Hls => "m3u8"@,
                        StreamFormat::Direct => container_text(
                            item.container,
                            streams_as_audio(item),
                        ),
                    },
                ),
                crate::text::contains(url, "/Videos/"@),
            )
        }),
{
    let head = c.base_url + c.stream_path(item, format);
    let rest = query_text(c.stream_params(token, item, format, session));
    let container = container_text(item.container, streams_as_audio(item));
    reveal_strlit("/main.m3u8");
    reveal_strlit("/stream.");
    reveal_strlit("m3u8");
    reveal_strlit("/Audio/");
    reveal_strlit("/Videos/");
    assert(!head.contains('?')) by {
        assert forall|j: int| 0 <= j < head.len() implies head[j] != '?' by {
            let path = c.stream_path(item, format);
            if j < c.base_url.len() {
                assert(c.base_url.contains(c.base_url[j]));
            } else {
                let k = j - c.base_url.len();
                let root = if streams_as_audio(item) {
                    "/Audio/"@
                } else {
                    "/Videos/"@
                };
                assert(head[j] == path[k]);
                if k < root.len() {
                    assert(path[k] == root[k]);
                } else if k < root.len() + item.id.len() {
                    assert(path[k] == item.id[k - root.len()]);
                    assert(item.id.contains(item.id[k - root.len()]));
                } else {
                    match format {
                        StreamFormat::Hls => {
                            assert(path[k] == "/main.m3u8"@[k - root.len() - item.id.len()]);
                        },
                        StreamFormat::Direct => {
                            let m = k - root.len() - item.id.len();
                            if m < 8 {
                                assert(path[k] == "/stream."@[m]);
                            } else {
                                assert(path[k] == container[m - 8]);
                                assert(container.contains(container[m - 8]));
                            }
                        },
                    }
                }
            }
        }
    }
    lemma_cut_query(head, rest);
    let url = c.stream_text(token, item, format, session);
    assert(url =~= head + "?"@ + rest);
    match format {
        StreamFormat::Hls => {
            let front = head.take(head.len() - 4);
            assert(head =~= front + "m3u8"@);
            assert(front.last() == '.');
            assert(!"m3u8"@.contains('.'));
            lemma_extension(front, "m3u8"@);
        },
        StreamFormat::Direct => {
            let front = head.take(head.len() - container.len());
            assert(head =~= front + container);
            assert(front.last() == '.');
            lemma_extension(front, container);
        },
    }
}

/// Parameters of two lists stand one behind the other, with an ampersand
/// between them; each is its key, an equals sign and its value, escaped.
pub proof fn lemma_query_joined(a: Seq<(Seq<char>, Seq<char>)>, b: Seq<(Seq<char>, Seq<char>)>)
    ensures
        query_text(Seq::empty()).len() == 0,
        forall|key: Seq<char>, value: Seq<char>|
            #![trigger crate::escape::percent_encoded(value), seq![(key, value)]]
            query_text(seq![(key, value)]) == key + "="@ + crate::escape::percent_encoded(value),
        a.len() > 0 && b.len() > 0 ==> query_text(a + b) == query_text(a) + "&"@ + query_text(b),
        a.len() == 0 ==> query_text(a + b) == query_text(b),
        b.len() == 0 ==> query_text(a + b) == query_text(a),
    decreases b.len(),
{
    if a.len() == 0 {
        assert(a + b =~= b);
    }
    if b.len() == 0 {
        assert(a + b =~= a);
    } else if a.len() > 0 {
        let ab = a + b;
        assert(ab.drop_last() =~= a + b.drop_last());
        assert(ab.last() == b.last());
        lemma_query_joined(a, b.drop_last());
        let one = b.last().0 + "="@ + crate::escape::percent_encoded(b.last().1);
        assert(query_text(ab) == query_text(ab.drop_last()) + "&"@ + one);
        if b.len() == 1 {
            assert(ab.drop_last() =~= a);
        } else {
            assert(query_text(a) + "&"@ + query_text(b.drop_last()) + "&"@ + one =~= query_text(a)
                + "&"@ + (query_text(b.drop_last()) + "&"@ + one));
        }
    }
}

/// What a user asks for is under the address of that user; without a user
/// nothing is asked.
pub proof fn lemma_user_address(c: ClientView, tail: Seq<char>, query: Seq<(Seq<char>, Seq<char>)>)
    ensures
        c.user_id is Some ==> c.user_get(tail, query) is Ok && c.user_get(tail, query)->Ok_0.url
            == c.base_url + "/Users/"@ + c.user_id->0 + tail && c.user_get(
            tail,
            query,
        )->Ok_0.query == query,
        c.user_id is None ==> c.user_get(tail, query) == Err::<GetView, ClientError>(
            ClientError::NotAuthenticated,
        ),
{
}

/// A list of items is asked for by its parent, the kinds, the order and the
/// length, each where it is given and only there; and downwards or not, as it
/// is asked.
pub proof fn lemma_items_asked(
    parent: Seq<char>,
    kind: Seq<char>,
    recursive: bool,
    sort: Seq<char>,
    limit: u32,
)
    ensures
        items_query(Some(parent), seq![kind], recursive, Some(sort), Some(limit)) == seq![
            ("Fields"@, ITEM_FIELDS@),
            (
                "Recursive"@,
                if recursive {
                    "true"@
                } else {
                    "false"@
                },
            ),
            ("ParentId"@, parent),
            ("IncludeItemTypes"@, kind),
            ("SortBy"@, sort),
            ("SortOrder"@, "Ascending"@),
            ("Limit"@, crate::num::dec(limit as nat)),
        ],
        items_query(None, Seq::empty(), recursive, None, None).len() == 2,
        items_query(Some(parent), Seq::empty(), recursive, None, None)[2] == ("ParentId"@, parent),
        items_query(None, Seq::empty(), recursive, None, Some(limit))[2] == (
            "Limit"@,
            crate::num::dec(limit as nat),
        ),
{
    assert(crate::text::joined(seq![kind], ","@) == kind) by {
        reveal_with_fuel(crate::text::joined, 2);
    }
    assert(items_query(Some(parent), seq![kind], recursive, Some(sort), Some(limit)) =~= seq![
        ("Fields"@, ITEM_FIELDS@),
        (
            "Recursive"@,
            if recursive {
                "true"@
            } else {
                "false"@
            },
        ),
        ("ParentId"@, parent),
        ("IncludeItemTypes"@, kind),
        ("SortBy"@, sort),
        ("SortOrder"@, "Ascending"@),
        ("Limit"@, crate::num::dec(limit as nat)),
    ]);
}

/// A search carries the words that are searched for, and how many hits are
/// wanted; the kinds only where there are any. The quick one names the user, the
/// thorough one goes downwards.
pub proof fn lemma_search_asked(term: Seq<char>, user: Seq<char>, kind: Seq<char>, limit: nat)
    ensures
        hints_query(term, user, seq![kind], limit).contains(("searchTerm"@, term)),
        hints_query(term, user, seq![kind], limit).contains(("userId"@, user)),
        hints_query(term, user, seq![kind], limit).contains(("limit"@, crate::num::dec(limit))),
        hints_query(term, user, seq![kind], limit).last() == ("includeItemTypes"@, kind),
        hints_query(term, user, Seq::empty(), limit).len() == hints_query(
            term,
            user,
            seq![kind],
            limit,
        ).len() - 1,
        fallback_query(term, seq![kind], limit) == seq![
            ("searchTerm"@, term),
            ("recursive"@, "true"@),
            ("limit"@, crate::num::dec(limit)),
            ("fields"@, ITEM_FIELDS@),
            ("includeItemTypes"@, kind),
        ],
        fallback_query(term, Seq::empty(), limit).len() == 4,
{
    assert(crate::text::joined(seq![kind], ","@) == kind) by {
        reveal_with_fuel(crate::text::joined, 2);
    }
    let q = hints_query(term, user, seq![kind], limit);
    assert(q[0] == ("searchTerm"@, term));
    assert(q[1] == ("userId"@, user));
    assert(q[2] == ("limit"@, crate::num::dec(limit)));
    assert(fallback_query(term, seq![kind], limit) =~= seq![
        ("searchTerm"@, term),
        ("recursive"@, "true"@),
        ("limit"@, crate::num::dec(limit)),
        ("fields"@, ITEM_FIELDS@),
        ("includeItemTypes"@, kind),
    ]);
}

/// The address of a stream is that of the item: music is fetched as audio and
/// all else as video, as it is stored or in pieces. It carries the token, the
/// device and the session.
pub proof fn lemma_stream_address(
    c: ClientView,
    token: Seq<char>,
    item: BaseView,
    session: Seq<char>,
)
    ensures
        ({
            let audio = item.kind() == ItemKind::Audio || item.kind() == ItemKind::MusicAlbum
                || item.kind() == ItemKind::MusicArtist || item.media_type == Some("Audio"@);
            let root = if audio {
                "/Audio/"@
            } else {
                "/Videos/"@
            };
            let who = seq![
                ("api_key"@, token),
                ("DeviceId"@, c.device_id),
                ("PlaySessionId"@, session),
            ];
            &&& streams_as_audio(item) == audio
            &&& c.stream_text(token, item, StreamFormat::Hls, session) == c.base_url + (root
                + item.id + "/main.m3u8"@) + "?"@ + query_text(who)
            &&& c.stream_text(token, item, StreamFormat::Direct, session) == c.base_url + (root
                + item.id + "/stream."@ + container_text(item.container, audio)) + "?"@
                + query_text(who + seq![("Static"@, "true"@), ("MediaSourceId"@, item.id)])
        }),
{
}

/// Of the containers that a server names the first one counts, in small letters
/// and without blanks; where it names none, one that every receiver takes.
pub proof fn lemma_container(c: Seq<char>, rest: Seq<char>, is_audio: bool)
    requires
        crate::text::index_of(c, ',', 0) is None,
    ensures
        container_text(None, is_audio) == (if is_audio {
            "mp3"@
        } else {
            "mp4"@
        }),
        crate::text::trimmed(c).len() > 0 ==> container_text(Some(c), is_audio)
            == crate::text::lower(crate::text::trimmed(c)),
        crate::text::trimmed(c).len() == 0 ==> container_text(Some(c), is_audio) == container_text(
            None,
            is_audio,
        ),
        container_text(Some(c + seq![','] + rest), is_audio) == container_text(Some(c), is_audio),
{
    let s = c + seq![','] + rest;
    crate::text::lemma_index_of(c, ',', 0);
    crate::text::lemma_index_of(s, ',', 0);
    assert(s[c.len() as int] == ',');
    assert forall|k: int| 0 <= k < c.len() implies #[trigger] s[k] != ',' by {
        assert(s[k] == c[k]);
    }
    assert(s.take(c.len() as int) =~= c);
}

/// The content types of the extensions, each by its own name.
pub proof fn lemma_extension_types(on_video_path: bool)
    ensures
        type_of_extension("m3u8"@, on_video_path) == "application/vnd.apple.mpegurl"@,
        type_of_extension("mpd"@, on_video_path) == "application/dash+xml"@,
        type_of_extension("mp4"@, on_video_path) == "video/mp4"@,
        type_of_extension("m4v"@, on_video_path) == "video/mp4"@,
        type_of_extension("mkv"@, on_video_path) == "video/x-matroska"@,
        type_of_extension("webm"@, on_video_path) == "video/webm"@,
        type_of_extension("mov"@, on_video_path) == "video/quicktime"@,
        type_of_extension("ts"@, on_video_path) == "video/mp2t"@,
        type_of_extension("avi"@, on_video_path) == "video/x-msvideo"@,
        type_of_extension("mp3"@, on_video_path) == "audio/mpeg"@,
        type_of_extension("m4a"@, on_video_path) == "audio/aac"@,
        type_of_extension("aac"@, on_video_path) == "audio/aac"@,
        type_of_extension("ogg"@, on_video_path) == "audio/ogg"@,
        type_of_extension("oga"@, on_video_path) == "audio/ogg"@,
        type_of_extension("opus"@, on_video_path) == "audio/opus"@,
        type_of_extension("flac"@, on_video_path) == "audio/flac"@,
        type_of_extension("wav"@, on_video_path) == "audio/wav"@,
        type_of_extension("wma"@, on_video_path) == "audio/x-ms-wma"@,
        type_of_extension(Seq::empty(), true) == "video/mp4"@,
        type_of_extension(Seq::empty(), false) == "audio/mpeg"@,
{
    crate::mediarenderer::xml::lemma_extensions_differ();
}

/// How the client names itself: by its own name, the device and the version,
/// and by its token once it has one.
pub proof fn lemma_authorization(c: ClientView)
    ensures
        ({
            let plain = "MediaBrowser Client=\""@ + "fin"@ + "\", Device=\""@ + c.device_name
                + "\", DeviceId=\""@ + c.device_id + "\", Version=\""@ + VERSION@ + "\""@;
            &&& c.access_token is None ==> c.authorization() == plain
            &&& c.access_token is Some ==> c.authorization() == plain + (", Token=\""@
                + c.access_token->0 + "\""@)
        }),
{
    if c.access_token is None {
        let plain = "MediaBrowser Client=\""@ + "fin"@ + "\", Device=\""@ + c.device_name
            + "\", DeviceId=\""@ + c.device_id + "\", Version=\""@ + VERSION@ + "\""@;
        assert(plain + Seq::<char>::empty() =~= plain);
    }
}

/// The entries of a playlist are under the address of that playlist.
pub proof fn lemma_playlist_address(c: ClientView, id: Seq<char>)
    ensures
        c.playlist_url(id) == c.base_url + "/Playlists/"@ + id + "/Items"@,
{
}

/// The hits of a quick search become items in their order, each the one that
/// was hit; texts are listed as they stand.
pub proof fn lemma_lists_in_order(hits: Seq<SearchHint>, list: Seq<Seq<char>>, i: int)
    ensures
        hint_bases(hits).len() == hits.len(),
        0 <= i < hits.len() ==> hint_bases(hits)[i].id == hits[i].id@ && hint_bases(hits)[i].name
            == hits[i].name@,
        texts(list) is Array,
        texts(list)->Array_0.len() == list.len(),
        0 <= i < list.len() ==> texts(list)->Array_0[i] == Tree::Text(list[i]),
{
}

/// A login says who logs in and with which password, each under its own key.
pub proof fn lemma_login_said(username: Seq<char>, password: Seq<char>)
    ensures
        login_body(username, password).at("Username"@) == Some(Tree::Text(username)),
        login_body(username, password).at("Pw"@) == Some(Tree::Text(password)),
{
    reveal_strlit("Username");
    reveal_strlit("Pw");
    assert("Username"@.len() == 8 && "Pw"@.len() == 2);
    let v = login_body(username, password)->Object_0;
    assert(v.last() == ("Pw"@, Tree::Text(password)));
    assert(v.drop_last().last() == ("Username"@, Tree::Text(username)));
    reveal_with_fuel(crate::json::entry, 3);
}

/// Every report names the item and the session; those on its progress and its
/// end say where it is, and the one on progress whether it is paused.
pub proof fn lemma_reports_said(id: Seq<char>, session: Seq<char>, ticks: int, paused: bool)
    ensures
        started_body(id, session).at("ItemId"@) == Some(Tree::Text(id)),
        started_body(id, session).at("PlaySessionId"@) == Some(Tree::Text(session)),
        progress_body(id, session, ticks, paused).at("ItemId"@) == Some(Tree::Text(id)),
        progress_body(id, session, ticks, paused).at("PositionTicks"@) == Some(
            Tree::Number(crate::num::dec_int(ticks)),
        ),
        progress_body(id, session, ticks, paused).at("IsPaused"@) == Some(Tree::Bool(paused)),
        stopped_body(id, session, ticks).at("ItemId"@) == Some(Tree::Text(id)),
        stopped_body(id, session, ticks).at("PlaySessionId"@) == Some(Tree::Text(session)),
        stopped_body(id, session, ticks).at("PositionTicks"@) == Some(
            Tree::Number(crate::num::dec_int(ticks)),
        ),
{
    reveal_strlit("ItemId");
    reveal_strlit("PlaySessionId");
    reveal_strlit("PositionTicks");
    reveal_strlit("IsPaused");
    reveal_strlit("CanSeek");
    reveal_strlit("EventName");
    assert("ItemId"@.len() == 6 && "PlaySessionId"@.len() == 13 && "PositionTicks"@.len() == 13
        && "IsPaused"@.len() == 8 && "CanSeek"@.len() == 7 && "EventName"@.len() == 9);
    assert("PlaySessionId"@[1] == 'l' && "PositionTicks"@[1] == 'o');
    reveal_with_fuel(crate::json::entry, 7);
    let a = started_body(id, session)->Object_0;
    assert(a.last() == ("CanSeek"@, Tree::Bool(true)));
    assert(a.drop_last().last() == ("PlaySessionId"@, Tree::Text(session)));
    assert(a.drop_last().drop_last().last() == ("ItemId"@, Tree::Text(id)));
    let b = progress_body(id, session, ticks, paused)->Object_0;
    let b5 = b.drop_last();
    let b4 = b5.drop_last();
    let b3 = b4.drop_last();
    let b2 = b3.drop_last();
    let b1 = b2.drop_last();
    assert(b.last() == ("EventName"@, Tree::Text("TimeUpdate"@)));
    assert(b5.last() == ("CanSeek"@, Tree::Bool(true)));
    assert(b4.last() == ("IsPaused"@, Tree::Bool(paused)));
    assert(b3.last() == ("PositionTicks"@, Tree::Number(crate::num::dec_int(ticks))));
    assert(b2.last() == ("PlaySessionId"@, Tree::Text(session)));
    assert(b1.last() == ("ItemId"@, Tree::Text(id)));
    let c = stopped_body(id, session, ticks)->Object_0;
    assert(c.last() == ("PositionTicks"@, Tree::Number(crate::num::dec_int(ticks))));
    assert(c.drop_last().last() == ("PlaySessionId"@, Tree::Text(session)));
    assert(c.drop_last().drop_last().last() == ("ItemId"@, Tree::Text(id)));
}

} // verus!
