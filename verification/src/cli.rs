//! The command line: what its flags change, what its commands ask for, and what
//! they print.

use vstd::prelude::*;

use crate::columns::fill_to;
use crate::config::{
    derive_server_name, Config, RendererPref, ServerConfig, ServerError,
};
use crate::jellyfin::StreamFormat;
use crate::media::{MediaClient, ServerKind, StreamError};
use crate::models::{BaseItem, BaseView, ItemKind};
use crate::num::push_dec;
use crate::queue::QueueItem;
use crate::renderer::RendererKind;
use crate::text::{begins, chars, cut_end_char, from_chars, is_blank, str_eq, trim};
use crate::tui::outcome::queue_item;

verus! {

/// A renderer, as a flag names it.
#[derive(Debug, Clone, Copy, PartialEq, Eq, Structural)]
pub enum RendererArg {
    Mpv,
    Chromecast,
    Upnp,
}

impl RendererArg {
    /// The renderer that is meant.
    pub open spec fn pref(self) -> RendererPref {
        match self {
            RendererArg::Mpv => RendererPref::Mpv,
            RendererArg::Chromecast => RendererPref::Chromecast,
            RendererArg::Upnp => RendererPref::Upnp,
        }
    }
}

impl From<RendererArg> for RendererPref {
    fn from(a: RendererArg) -> (r: Self) {
        match a {
            RendererArg::Mpv => RendererPref::Mpv,
            RendererArg::Chromecast => RendererPref::Chromecast,
            RendererArg::Upnp => RendererPref::Upnp,
        }
    }
}

impl vstd::std_specs::convert::FromSpecImpl<RendererArg> for RendererPref {
    open spec fn obeys_from_spec() -> bool {
        true
    }

    open spec fn from_spec(a: RendererArg) -> Self {
        a.pref()
    }
}

/// What is to be done with the saved servers.
#[derive(Debug)]
pub enum ServerCmd {
    List,
    Switch { name: String },
    Rm { name: String },
    Rename { from: String, to: String },
}

/// What is to be played.
#[derive(Debug)]
pub struct PlayArgs {
    pub query: String,
    pub kind: Option<String>,
    pub hls: bool,
}

/// What is to be queued.
#[derive(Debug)]
pub struct QueueArgs {
    pub query: String,
    pub kind: Option<String>,
    pub hls: bool,
}

impl From<PlayArgs> for QueueArgs {
    fn from(p: PlayArgs) -> (r: Self) {
        QueueArgs { query: p.query, kind: p.kind, hls: p.hls }
    }
}

impl vstd::std_specs::convert::FromSpecImpl<PlayArgs> for QueueArgs {
    open spec fn obeys_from_spec() -> bool {
        true
    }

    open spec fn from_spec(p: PlayArgs) -> Self {
        QueueArgs { query: p.query, kind: p.kind, hls: p.hls }
    }
}

/// The flags that every command takes.
#[derive(Debug)]
pub struct Cli {
    pub verbose: u8,
    pub server: Option<String>,
    pub server_name: Option<String>,
    pub token: Option<String>,
    pub user_id: Option<String>,
    pub user_name: Option<String>,
    pub device_id: Option<String>,
    pub renderer: Option<RendererArg>,
    pub mpv: bool,
    /// The name of a Chromecast, or an empty text for any.
    pub chromecast: Option<String>,
    /// The name of a UPnP renderer, or an empty text for any.
    pub upnp: Option<String>,
    pub no_media_renderer: bool,
    pub media_renderer: bool,
}

// ---------------------------------------------------------------------------
// Flags over the configuration
// ---------------------------------------------------------------------------

/// What a flag says, else what was there.
pub open spec fn over(flag: Option<String>, there: Seq<char>) -> Seq<char> {
    match flag {
        Some(f) => f@,
        None => there,
    }
}

/// A server with what the flags say of it.
pub open spec fn patched(s: ServerConfig, cli: Cli, before: ServerConfig) -> bool {
    &&& s.name@ == before.name@
    &&& s.url@ == before.url@
    &&& s.user_id@ == over(cli.user_id, before.user_id@)
    &&& s.user_name@ == over(cli.user_name, before.user_name@)
    &&& s.access_token@ == over(cli.token, before.access_token@)
    &&& s.device_id@ == over(cli.device_id, before.device_id@)
    &&& s.server_kind == before.server_kind
}

/// A server at the address of a flag, with what the flags say of it, else with
/// what a server of its name had.
pub open spec fn pointed_at(
    s: ServerConfig,
    cli: Cli,
    name: Seq<char>,
    url: Seq<char>,
    before: Option<ServerConfig>,
) -> bool {
    &&& s.name@ == name
    &&& s.url@ == url
    &&& match before {
        Some(b) => {
            &&& s.user_id@ == over(cli.user_id, b.user_id@)
            &&& s.user_name@ == over(cli.user_name, b.user_name@)
            &&& s.access_token@ == over(cli.token, b.access_token@)
            &&& s.device_id@ == over(cli.device_id, b.device_id@)
            &&& s.server_kind == b.server_kind
        },
        None => {
            &&& s.user_id@ == over(cli.user_id, ""@)
            &&& s.user_name@ == over(cli.user_name, ""@)
            &&& s.access_token@ == over(cli.token, ""@)
            &&& s.device_id@ == over(cli.device_id, ""@)
            &&& s.server_kind == ServerKind::Jellyfin
        },
    }
}

/// The servers once the flags were heard.
pub open spec fn servers_merged(before: Config, cli: Cli, after: Config) -> bool {
    let named = crate::text::opt_view(cli.server_name);
    match cli.server {
        Some(url) => {
            let name = match named {
                Some(n) => n,
                None => crate::config::server_name(url@),
            };
            &&& after.current_name() == Some(name)
            &&& match crate::config::server_index(before.servers@, name, 0) {
                Some(i) => {
                    &&& after.servers@ == before.servers@.update(i, after.servers@[i])
                    &&& pointed_at(after.servers@[i], cli, name, url@, Some(before.servers@[i]))
                },
                None => {
                    &&& after.servers@.len() == before.servers@.len() + 1
                    &&& after.servers@.drop_last() == before.servers@
                    &&& pointed_at(after.servers@.last(), cli, name, url@, None)
                },
            }
        },
        None => {
            let current = match named {
                Some(n) => Some(n),
                None => before.current_name(),
            };
            let at = match current {
                Some(n) => crate::config::server_index(before.servers@, n, 0),
                None => None,
            };
            &&& after.current_name() == current
            &&& match at {
                Some(i) => {
                    &&& after.servers@ == before.servers@.update(i, after.servers@[i])
                    &&& patched(after.servers@[i], cli, before.servers@[i])
                },
                None => after.servers@ == before.servers@,
            }
        },
    }
}

/// The renderer once the flags were heard: the flags for one kind of renderer
/// come before the one that names a kind, and that before what is written
/// down.
pub open spec fn renderer_merged(before: RendererPref, cli: Cli) -> RendererPref {
    if cli.mpv {
        RendererPref::Mpv
    } else if cli.chromecast is Some {
        RendererPref::Chromecast
    } else if cli.upnp is Some {
        RendererPref::Upnp
    } else {
        match cli.renderer {
            Some(a) => a.pref(),
            None => before,
        }
    }
}

/// The device once a flag was heard that may name one.
pub open spec fn device_merged(before: Option<String>, flag: Option<String>, heard: bool) -> Option<
    Seq<char>,
> {
    match flag {
        Some(name) => if heard && name@.len() > 0 {
            Some(name@)
        } else {
            crate::text::opt_view(before)
        },
        None => crate::text::opt_view(before),
    }
}

fn overlay(flag: &Option<String>, there: &str) -> (r: String)
    ensures
        r@ == over(*flag, there@),
{
    match flag {
        Some(f) => f.clone(),
        None => there.to_owned(),
    }
}

fn merge_servers(cli: &Cli, cfg: &mut Config)
    ensures
        servers_merged(*old(cfg), *cli, *final(cfg)),
        final(cfg).server == old(cfg).server,
        final(cfg).same_settings(*old(cfg)),
{
    let ghost before = *cfg;
    if let Some(name) = &cli.server_name {
        cfg.current_server = Some(name.clone());
    }
    match &cli.server {
        Some(url) => {
            let name: String = match &cli.server_name {
                Some(n) => n.clone(),
                None => derive_server_name(url.as_str()),
            };
            let merged: ServerConfig = match cfg.find_server(name.as_str()) {
                Some(s) => ServerConfig {
                    name: name.clone(),
                    url: url.clone(),
                    user_id: overlay(&cli.user_id, s.user_id.as_str()),
                    user_name: overlay(&cli.user_name, s.user_name.as_str()),
                    access_token: overlay(&cli.token, s.access_token.as_str()),
                    device_id: overlay(&cli.device_id, s.device_id.as_str()),
                    server_kind: s.server_kind,
                },
                None => ServerConfig {
                    name: name.clone(),
                    url: url.clone(),
                    user_id: overlay(&cli.user_id, ""),
                    user_name: overlay(&cli.user_name, ""),
                    access_token: overlay(&cli.token, ""),
                    device_id: overlay(&cli.device_id, ""),
                    server_kind: ServerKind::Jellyfin,
                },
            };
            proof {
                crate::config::lemma_server_index(before.servers@, name@, 0);
            }
            cfg.add_or_update_server(merged);
            proof {
                assert(before.servers@.push(merged).drop_last() =~= before.servers@);
            }
        },
        None => {
            if let Some(i) = cfg.current_position() {
                let s: ServerConfig = cfg.servers[i].clone();
                let p: ServerConfig = ServerConfig {
                    user_id: overlay(&cli.user_id, s.user_id.as_str()),
                    user_name: overlay(&cli.user_name, s.user_name.as_str()),
                    access_token: overlay(&cli.token, s.access_token.as_str()),
                    device_id: overlay(&cli.device_id, s.device_id.as_str()),
                    server_kind: s.server_kind,
                    name: s.name,
                    url: s.url,
                };
                cfg.servers.set(i, p);
            }
        },
    }
}

/// The configuration for this run: what is written down, with what the flags
/// say over it.
pub fn load_and_merge(cli: &Cli, loaded: Config) -> (r: Config)
    ensures
        servers_merged(loaded, *cli, r),
        r.server == loaded.server,
        r.renderer == renderer_merged(loaded.renderer, *cli),
        crate::text::opt_view(r.last_chromecast) == device_merged(
            loaded.last_chromecast,
            cli.chromecast,
            !cli.mpv,
        ),
        crate::text::opt_view(r.last_upnp) == device_merged(
            loaded.last_upnp,
            cli.upnp,
            !cli.mpv && cli.chromecast is None,
        ),
        r.client == loaded.client,
        r.replaygain == loaded.replaygain,
        r.crossfade == loaded.crossfade,
        r.eq_enabled == loaded.eq_enabled,
        r.eq_band_settings@ == loaded.eq_band_settings@,
        r.bass == loaded.bass,
        r.treble == loaded.treble,
        r.bass_cutoff == loaded.bass_cutoff,
        r.treble_cutoff == loaded.treble_cutoff,
{
    let mut cfg: Config = loaded;
    merge_servers(cli, &mut cfg);
    if cli.mpv {
        cfg.renderer = RendererPref::Mpv;
    } else if let Some(name) = &cli.chromecast {
        cfg.renderer = RendererPref::Chromecast;
        if !is_blank(name.as_str()) {
            cfg.last_chromecast = Some(name.clone());
        }
    } else if let Some(name) = &cli.upnp {
        cfg.renderer = RendererPref::Upnp;
        if !is_blank(name.as_str()) {
            cfg.last_upnp = Some(name.clone());
        }
    } else if let Some(a) = cli.renderer {
        cfg.renderer = RendererPref::from(a);
    }
    cfg
}

/// Whether other devices may cast to this machine.
pub fn advertises(cli: &Cli) -> (r: bool)
    ensures
        r == (cli.media_renderer || !cli.no_media_renderer),
{
    cli.media_renderer || !cli.no_media_renderer
}

/// Flags that say nothing leave the configuration as it is.
pub proof fn lemma_no_flags_no_change(cli: Cli, before: Config, after: Config)
    requires
        servers_merged(before, cli, after),
        cli.server is None && cli.server_name is None && cli.token is None && cli.user_id is None
            && cli.user_name is None && cli.device_id is None && cli.renderer is None && !cli.mpv
            && cli.chromecast is None && cli.upnp is None,
    ensures
        after.current_name() == before.current_name(),
        after.servers@.len() == before.servers@.len(),
        forall|i: int|
            0 <= i < before.servers@.len() ==> {
                &&& (#[trigger] after.servers@[i]).name@ == before.servers@[i].name@
                &&& after.servers@[i].url@ == before.servers@[i].url@
                &&& after.servers@[i].user_id@ == before.servers@[i].user_id@
                &&& after.servers@[i].user_name@ == before.servers@[i].user_name@
                &&& after.servers@[i].access_token@ == before.servers@[i].access_token@
                &&& after.servers@[i].device_id@ == before.servers@[i].device_id@
                &&& after.servers@[i].server_kind == before.servers@[i].server_kind
            },
        renderer_merged(before.renderer, cli) == before.renderer,
        device_merged(before.last_chromecast, cli.chromecast, true) == crate::text::opt_view(
            before.last_chromecast,
        ),
        device_merged(before.last_upnp, cli.upnp, true) == crate::text::opt_view(before.last_upnp),
{
    if let Some(n) = before.current_name() {
        crate::config::lemma_server_index(before.servers@, n, 0);
    }
}

// ---------------------------------------------------------------------------
// What commands ask for
// ---------------------------------------------------------------------------

/// An address as it is written down: without blanks around it or slashes behind
/// it, and with a scheme.
pub open spec fn normal_url(url: Seq<char>) -> Seq<char> {
    let t = crate::text::trim_end_char(crate::text::trimmed(url), '/');
    if crate::text::starts_with(t, "http://"@) || crate::text::starts_with(t, "https://"@) {
        t
    } else {
        "http://"@ + t
    }
}

/// An address as it is written down.
pub fn normalize_url(url: &str) -> (r: String)
    ensures
        r@ == normal_url(url@),
{
    let all: Vec<char> = chars(url);
    let cut: &[char] = cut_end_char(trim(all.as_slice()), '/');
    let t: String = from_chars(cut);
    if begins(t.as_str(), "http://") || begins(t.as_str(), "https://") {
        t
    } else {
        let mut r: String = "http://".to_owned();
        r.push_str(t.as_str());
        r
    }
}

/// A normal address has a scheme.
pub proof fn lemma_normal_url_has_scheme(url: Seq<char>)
    ensures
        crate::text::starts_with(normal_url(url), "http://"@) || crate::text::starts_with(
            normal_url(url),
            "https://"@,
        ),
{
    let t = crate::text::trim_end_char(crate::text::trimmed(url), '/');
    let p = "http://"@;
    assert((p + t).subrange(0, p.len() as int) =~= p);
}

/// What is logged, by how often more was asked for.
pub fn log_level(verbose: u8) -> (r: &'static str)
    ensures
        r@ == (if verbose == 0 {
            "warn,fin=info,mdns_sd=off"@
        } else if verbose == 1 {
            "info,fin=debug,mdns_sd=warn"@
        } else {
            "debug"@
        }),
{
    if verbose == 0 {
        "warn,fin=info,mdns_sd=off"
    } else if verbose == 1 {
        "info,fin=debug,mdns_sd=warn"
    } else {
        "debug"
    }
}

/// The kinds of items that a word stands for in a search.
pub open spec fn kinds_to_find(kind: Option<Seq<char>>) -> Seq<Seq<char>> {
    if kind == Some("audio"@) || kind == Some("music"@) {
        seq!["Audio"@, "MusicAlbum"@, "MusicArtist"@]
    } else if kind == Some("video"@) || kind == Some("movies"@) {
        seq!["Movie"@, "Series"@, "Episode"@]
    } else {
        seq!["Audio"@, "MusicAlbum"@, "MusicArtist"@, "Movie"@, "Series"@, "Episode"@]
    }
}

/// The kinds of items that a word stands for where something is to be played.
pub open spec fn kinds_to_play(kind: Option<Seq<char>>) -> Seq<Seq<char>> {
    if kind == Some("audio"@) || kind == Some("music"@) {
        seq!["Audio"@, "MusicAlbum"@]
    } else if kind == Some("video"@) || kind == Some("movie"@) || kind == Some("movies"@) {
        seq!["Movie"@, "Episode"@]
    } else {
        seq!["Audio"@, "MusicAlbum"@, "Movie"@, "Episode"@]
    }
}

fn is_word(kind: &Option<String>, word: &str) -> (r: bool)
    ensures
        r == (crate::text::opt_view(*kind) == Some(word@)),
{
    match kind {
        Some(k) => str_eq(k.as_str(), word),
        None => false,
    }
}

/// The kinds of items that a word stands for in a search.
pub fn search_types(kind: &Option<String>) -> (r: Vec<&'static str>)
    ensures
        crate::text::str_views(r@) == kinds_to_find(crate::text::opt_view(*kind)),
{
    let r: Vec<&'static str> = if is_word(kind, "audio") || is_word(kind, "music") {
        vec!["Audio", "MusicAlbum", "MusicArtist"]
    } else if is_word(kind, "video") || is_word(kind, "movies") {
        vec!["Movie", "Series", "Episode"]
    } else {
        vec!["Audio", "MusicAlbum", "MusicArtist", "Movie", "Series", "Episode"]
    };
    proof {
        assert(crate::text::str_views(r@) =~= kinds_to_find(crate::text::opt_view(*kind)));
    }
    r
}

/// The kinds of items that a word stands for where something is to be played.
pub fn play_types(kind: &Option<String>) -> (r: Vec<&'static str>)
    ensures
        crate::text::str_views(r@) == kinds_to_play(crate::text::opt_view(*kind)),
{
    let r: Vec<&'static str> = if is_word(kind, "audio") || is_word(kind, "music") {
        vec!["Audio", "MusicAlbum"]
    } else if is_word(kind, "video") || is_word(kind, "movie") || is_word(kind, "movies") {
        vec!["Movie", "Episode"]
    } else {
        vec!["Audio", "MusicAlbum", "Movie", "Episode"]
    };
    proof {
        assert(crate::text::str_views(r@) =~= kinds_to_play(crate::text::opt_view(*kind)));
    }
    r
}

/// Whether the tracks of a hit are played in its place.
pub fn plays_tracks(hit: &BaseItem) -> (r: bool)
    ensures
        r == (hit@.kind() == ItemKind::MusicAlbum),
{
    hit.kind() == ItemKind::MusicAlbum
}

/// Whether this is what a renderer is told of an item that was asked for on the
/// command line.
pub open spec fn sent(
    client: MediaClient,
    item: BaseItem,
    format: StreamFormat,
    q: QueueItem,
) -> bool {
    &&& client.streams_at(item, format, q.stream_url@)
    &&& q.content_type@ == crate::jellyfin::url_type(q.stream_url@)
    &&& q.id@ == item@.id
    &&& q.title@ == item@.name
    &&& q.subtitle@ == item@.line()
    &&& q.is_video == item@.kind().video()
    &&& q.image_url is None
    &&& q.duration_secs == (match item.run_time_ticks {
        Some(t) => Some(crate::models::ticks_to_secs(t as int) as u64),
        None => None,
    })
}

/// What a renderer is told of the items that were asked for.
pub fn play_queue(client: &MediaClient, items: &Vec<BaseItem>, format: StreamFormat) -> (r: Result<
    Vec<QueueItem>,
    StreamError,
>)
    ensures
        r is Ok <==> items@.len() == 0 || client.has_login(),
        r matches Ok(q) ==> q@.len() == items@.len() && forall|i: int|
            0 <= i < items@.len() ==> sent(*client, items@[i], format, #[trigger] q@[i]),
{
    let mut out: Vec<QueueItem> = Vec::new();
    let mut i: usize = 0;
    while i < items.len()
        invariant
            i <= items@.len(),
            out@.len() == i,
            i > 0 ==> client.has_login(),
            forall|j: int|
                0 <= j < i ==> sent(*client, items@[j], format, #[trigger] out@[j]),
        decreases items@.len() - i,
    {
        match client.stream_url(&items[i], format) {
            Ok(url) => {
                out.push(queue_item(&items[i], url, None));
            },
            Err(e) => {
                return Err(e);
            },
        }
        i += 1;
    }
    Ok(out)
}

// ---------------------------------------------------------------------------
// What commands print
// ---------------------------------------------------------------------------

/// Why a command failed.
#[derive(Debug)]
pub enum CliError {
    /// There is nothing to log out of.
    NoServer,
    /// The list of servers does not allow it; the name is the one in question.
    Server(ServerError, String),
}

impl CliError {
    /// Why a command failed, in words.
    pub fn text(&self) -> (r: String)
        ensures
            r@ == (match *self {
                CliError::NoServer => "no server to log out of"@,
                CliError::Server(e, name) => e.words(name@),
            }),
    {
        match self {
            CliError::NoServer => "no server to log out of".to_owned(),
            CliError::Server(e, name) => e.text(name.as_str()),
        }
    }
}

fn tick(before: &str, name: &str, after: &str) -> (r: String)
    ensures
        r@ == before@ + name@ + after@,
{
    let mut r: String = before.to_owned();
    r.push_str(name);
    r.push_str(after);
    r
}

fn lines1(a: String) -> (r: Vec<String>)
    ensures
        crate::text::string_views(r@) == seq![a@],
{
    let mut r: Vec<String> = Vec::new();
    r.push(a);
    proof {
        assert(crate::text::string_views(r@) =~= seq![a@]);
    }
    r
}

fn lines2(a: String, b: String) -> (r: Vec<String>)
    ensures
        crate::text::string_views(r@) == seq![a@, b@],
{
    let mut r: Vec<String> = Vec::new();
    r.push(a);
    r.push(b);
    proof {
        assert(crate::text::string_views(r@) =~= seq![a@, b@]);
    }
    r
}

/// What a login prints.
pub open spec fn login_text(user: Seq<char>, server: Seq<char>, servers: nat) -> Seq<Seq<char>> {
    let first = "✓ signed in as "@ + user + " on `"@ + server + "` — now the active server"@;
    if servers > 1 {
        seq![
            first,
            "  ("@ + crate::num::dec(servers)
                + " servers saved — switch anytime with `fin server switch <name>`)"@,
        ]
    } else {
        seq![first]
    }
}

/// What a login prints.
pub fn login_lines(user: &str, server: &str, servers: usize) -> (r: Vec<String>)
    ensures
        crate::text::string_views(r@) == login_text(user@, server@, servers as nat),
{
    let mut first: String = "✓ signed in as ".to_owned();
    first.push_str(user);
    first.push_str(" on `");
    first.push_str(server);
    first.push_str("` — now the active server");
    if servers > 1 {
        let mut second: String = "  (".to_owned();
        push_dec(&mut second, servers as u64);
        second.push_str(" servers saved — switch anytime with `fin server switch <name>`)");
        lines2(first, second)
    } else {
        lines1(first)
    }
}

/// What a logout prints.
pub open spec fn logout_text(name: Seq<char>, current: Option<Seq<char>>) -> Seq<Seq<char>> {
    seq![
        "✓ removed `"@ + name + "`"@,
        match current {
            Some(c) => "  now active: `"@ + c + "`"@,
            None => "  no servers left — run `fin login <url>` to add one"@,
        },
    ]
}

/// Logs out of a server, or of the active one.
pub fn cmd_logout(config: &mut Config, name: Option<String>) -> (r: Result<Vec<String>, CliError>)
    ensures
        ({
            let target = match name {
                Some(n) => Some(n@),
                None => old(config).current_name(),
            };
            match target {
                None => r matches Err(CliError::NoServer) && *final(config) == *old(config),
                Some(t) => {
                    &&& final(config).servers@ == crate::config::without_name(
                        old(config).servers@,
                        t,
                    )
                    &&& if crate::config::server_index(old(config).servers@, t, 0) is Some {
                        &&& r matches Ok(lines) && crate::text::string_views(lines@)
                            == logout_text(t, final(config).current_name())
                        &&& final(config).current_name() == (if old(config).current_name() == Some(
                            t,
                        ) {
                            Config::first_name(final(config).servers@)
                        } else {
                            old(config).current_name()
                        })
                    } else {
                        &&& r matches Err(CliError::Server(ServerError::NotFound, n)) && n@ == t
                        &&& final(config).servers@ == old(config).servers@
                        &&& final(config).current_name() == old(config).current_name()
                    }
                },
            }
        }),
        final(config).server == old(config).server,
        final(config).same_settings(*old(config)),
{
    let target: String = match name {
        Some(n) => n,
        None => match &config.current_server {
            Some(c) => c.clone(),
            None => {
                return Err(CliError::NoServer);
            },
        },
    };
    match config.remove_server(target.as_str()) {
        Ok(()) => {
            let first: String = tick("✓ removed `", target.as_str(), "`");
            let second: String = match &config.current_server {
                Some(c) => tick("  now active: `", c.as_str(), "`"),
                None => "  no servers left — run `fin login <url>` to add one".to_owned(),
            };
            Ok(lines2(first, second))
        },
        Err(e) => Err(CliError::Server(e, target)),
    }
}

/// A row of the list of servers.
pub open spec fn server_line(s: ServerConfig, current: Option<Seq<char>>) -> Seq<char> {
    (if current == Some(s.name@) {
        "▍"@
    } else {
        " "@
    }) + " "@ + crate::columns::filled(s.name@, s.name@.len() as int, 20) + " "@
        + crate::columns::filled(s.url@, s.url@.len() as int, 45) + "  as "@ + s.user_name@
}

/// What the list of servers prints.
pub open spec fn server_list_text(servers: Seq<ServerConfig>, current: Option<Seq<char>>) -> Seq<
    Seq<char>,
> {
    if servers.len() == 0 {
        seq!["no servers yet — run `fin login <url>` to add one"@]
    } else {
        servers.map_values(|s: ServerConfig| server_line(s, current))
    }
}

fn server_text(s: &ServerConfig, current: &Option<String>) -> (r: String)
    ensures
        r@ == server_line(*s, crate::text::opt_view(*current)),
{
    let active: bool = match current {
        Some(c) => str_eq(s.name.as_str(), c.as_str()),
        None => false,
    };
    let mut r: String = if active {
        "▍".to_owned()
    } else {
        " ".to_owned()
    };
    r.push_str(" ");
    let name_len: usize = chars(s.name.as_str()).len();
    let name: String = fill_to(s.name.as_str(), name_len, 20);
    r.push_str(name.as_str());
    r.push_str(" ");
    let url_len: usize = chars(s.url.as_str()).len();
    let url: String = fill_to(s.url.as_str(), url_len, 45);
    r.push_str(url.as_str());
    r.push_str("  as ");
    r.push_str(s.user_name.as_str());
    r
}

/// What the list of servers prints.
pub fn server_list(config: &Config) -> (r: Vec<String>)
    ensures
        crate::text::string_views(r@) == server_list_text(
            config.servers@,
            config.current_name(),
        ),
{
    if config.servers.len() == 0 {
        return lines1("no servers yet — run `fin login <url>` to add one".to_owned());
    }
    let mut r: Vec<String> = Vec::new();
    let mut i: usize = 0;
    while i < config.servers.len()
        invariant
            i <= config.servers@.len(),
            r@.len() == i,
            forall|j: int|
                0 <= j < i ==> (#[trigger] r@[j])@ == server_line(
                    config.servers@[j],
                    config.current_name(),
                ),
        decreases config.servers@.len() - i,
    {
        r.push(server_text(&config.servers[i], &config.current_server));
        i += 1;
    }
    proof {
        assert(crate::text::string_views(r@) =~= server_list_text(
            config.servers@,
            config.current_name(),
        ));
    }
    r
}

/// What a switch of the server prints.
pub open spec fn switch_text(s: ServerConfig) -> Seq<char> {
    "✓ active server → `"@ + s.name@ + "` ("@ + s.url@ + ", as "@ + s.user_name@ + ")"@
}

/// Does something with the saved servers. Where it changed them the result says
/// so, and they are to be written down.
pub fn cmd_server(config: &mut Config, sub: ServerCmd) -> (r: Result<(Vec<String>, bool), CliError>)
    ensures
        match sub {
            ServerCmd::List => {
                &&& *final(config) == *old(config)
                &&& r matches Ok((lines, save)) && !save && crate::text::string_views(lines@)
                    == server_list_text(old(config).servers@, old(config).current_name())
            },
            ServerCmd::Switch { name } => {
                let at = crate::config::server_index(old(config).servers@, name@, 0);
                &&& final(config).servers@ == old(config).servers@
                &&& match at {
                    Some(i) => {
                        &&& final(config).current_name() == Some(name@)
                        &&& r matches Ok((lines, save)) && save && crate::text::string_views(
                            lines@,
                        ) == seq![switch_text(old(config).servers@[i])]
                    },
                    None => {
                        &&& *final(config) == *old(config)
                        &&& r matches Err(CliError::Server(ServerError::NotFound, n)) && n@
                            == name@
                    },
                }
            },
            ServerCmd::Rm { name } => {
                let at = crate::config::server_index(old(config).servers@, name@, 0);
                &&& final(config).servers@ == crate::config::without_name(
                    old(config).servers@,
                    name@,
                )
                &&& final(config).current_name() == (if at is Some && old(config).current_name()
                    == Some(name@) {
                    Config::first_name(final(config).servers@)
                } else {
                    old(config).current_name()
                })
                &&& if at is Some {
                    r matches Ok((lines, save)) && save && crate::text::string_views(lines@)
                        == seq!["✓ removed `"@ + name@ + "`"@]
                } else {
                    &&& final(config).servers@ == old(config).servers@
                    &&& r matches Err(CliError::Server(ServerError::NotFound, n)) && n@ == name@
                }
            },
            ServerCmd::Rename { from, to } => {
                let at = crate::config::server_index(old(config).servers@, from@, 0);
                if at is None {
                    &&& *final(config) == *old(config)
                    &&& r matches Err(CliError::Server(ServerError::NotFound, n)) && n@ == from@
                } else if crate::config::server_index(old(config).servers@, to@, 0) is Some {
                    &&& *final(config) == *old(config)
                    &&& r matches Err(CliError::Server(ServerError::NameTaken, n)) && n@ == to@
                } else {
                    let s = final(config).servers@[at->0];
                    &&& final(config).servers@ == old(config).servers@.update(at->0, s)
                    &&& s.name@ == to@
                    &&& s == (ServerConfig { name: s.name, ..old(config).servers@[at->0] })
                    &&& final(config).current_name() == (if old(config).current_name() == Some(
                        from@,
                    ) {
                        Some(to@)
                    } else {
                        old(config).current_name()
                    })
                    &&& r matches Ok((lines, save)) && save && crate::text::string_views(lines@)
                        == seq!["✓ `"@ + from@ + "` → `"@ + to@ + "`"@]
                }
            },
        },
        final(config).server == old(config).server,
        final(config).same_settings(*old(config)),
{
    match sub {
        ServerCmd::List => Ok((server_list(config), false)),
        ServerCmd::Switch { name } => match config.switch_to(name.as_str()) {
            Ok(()) => {
                let text: String = match config.current() {
                    Some(s) => {
                        let mut t: String = "✓ active server → `".to_owned();
                        t.push_str(s.name.as_str());
                        t.push_str("` (");
                        t.push_str(s.url.as_str());
                        t.push_str(", as ");
                        t.push_str(s.user_name.as_str());
                        t.push_str(")");
                        t
                    },
                    None => "".to_owned(),
                };
                Ok((lines1(text), true))
            },
            Err(e) => Err(CliError::Server(e, name)),
        },
        ServerCmd::Rm { name } => match config.remove_server(name.as_str()) {
            Ok(()) => Ok((lines1(tick("✓ removed `", name.as_str(), "`")), true)),
            Err(e) => Err(CliError::Server(e, name)),
        },
        ServerCmd::Rename { from, to } => match config.rename_server(from.as_str(), to.as_str()) {
            Ok(()) => {
                let mut t: String = "✓ `".to_owned();
                t.push_str(from.as_str());
                t.push_str("` → `");
                t.push_str(to.as_str());
                t.push_str("`");
                Ok((lines1(t), true))
            },
            Err(e) => Err(
                CliError::Server(
                    e,
                    match e {
                        ServerError::NameTaken => to,
                        _ => from,
                    },
                ),
            ),
        },
    }
}

/// A hit of a search, or an entry of a playlist, in words.
pub open spec fn hit_text(b: BaseView) -> Seq<char> {
    b.kind().sign() + "  "@ + b.name + "   "@ + b.line()
}

/// A hit of a search, or an entry of a playlist, in words.
pub fn hit_line(item: &BaseItem) -> (r: String)
    ensures
        r@ == hit_text(item@),
{
    let mut r: String = item.kind().icon().to_owned();
    r.push_str("  ");
    r.push_str(item.name.as_str());
    r.push_str("   ");
    let line: String = item.subtitle();
    r.push_str(line.as_str());
    r
}

/// A playlist in words.
pub fn playlist_line(item: &BaseItem) -> (r: String)
    ensures
        r@ == "▤ "@ + item@.name + "   ("@ + item@.id + ")"@,
{
    let mut r: String = "▤ ".to_owned();
    r.push_str(item.name.as_str());
    r.push_str("   (");
    r.push_str(item.id.as_str());
    r.push_str(")");
    r
}

/// What is printed once something plays or was queued.
pub open spec fn started_text(
    queue: bool,
    title: Seq<char>,
    count: nat,
    label: Seq<char>,
) -> Seq<char> {
    if queue {
        "+ queued "@ + crate::num::dec(count) + " item(s) on "@ + label
    } else {
        "▶ playing “"@ + title + "” on "@ + label
    }
}

/// What is printed once something plays or was queued.
pub fn started_line(queue: bool, title: &str, count: usize, label: &str) -> (r: String)
    ensures
        r@ == started_text(queue, title@, count as nat, label@),
{
    if queue {
        let mut r: String = "+ queued ".to_owned();
        push_dec(&mut r, count as u64);
        r.push_str(" item(s) on ");
        r.push_str(label);
        r
    } else {
        let mut r: String = "▶ playing “".to_owned();
        r.push_str(title);
        r.push_str("” on ");
        r.push_str(label);
        r
    }
}

/// Whether the program has to go on for something to go on playing.
pub fn stays(kind: RendererKind) -> (r: bool)
    ensures
        r == (kind == RendererKind::Chromecast),
{
    kind == RendererKind::Chromecast
}

/// The systems for which there is a word on how to install mpv.
#[derive(Debug, Clone, Copy, PartialEq, Eq, Structural)]
pub enum System {
    MacOs,
    Linux,
    Windows,
    Other,
}

/// How to install mpv.
pub fn mpv_install_hint(system: System) -> (r: &'static str)
    ensures
        r@ == (match system {
            System::MacOs => "brew install mpv"@,
            System::Linux => "sudo apt install mpv   # or:  sudo pacman -S mpv"@,
            System::Windows => "winget install mpv    # or:  scoop install mpv"@,
            System::Other => "install mpv from https://mpv.io"@,
        }),
{
    match system {
        System::MacOs => "brew install mpv",
        System::Linux => "sudo apt install mpv   # or:  sudo pacman -S mpv",
        System::Windows => "winget install mpv    # or:  scoop install mpv",
        System::Other => "install mpv from https://mpv.io",
    }
}

/// The flag for one kind of renderer wins over the one that names a kind, and
/// that over what is written down; without a flag it stays.
pub proof fn lemma_renderer_flags(before: RendererPref, cli: Cli)
    ensures
        cli.mpv ==> renderer_merged(before, cli) == RendererPref::Mpv,
        !cli.mpv && cli.chromecast is Some ==> renderer_merged(before, cli)
            == RendererPref::Chromecast,
        !cli.mpv && cli.chromecast is None && cli.upnp is Some ==> renderer_merged(before, cli)
            == RendererPref::Upnp,
        !cli.mpv && cli.chromecast is None && cli.upnp is None && cli.renderer is None
            ==> renderer_merged(before, cli) == before,
        !cli.mpv && cli.chromecast is None && cli.upnp is None && cli.renderer == Some(
            RendererArg::Mpv,
        ) ==> renderer_merged(before, cli) == RendererPref::Mpv,
        !cli.mpv && cli.chromecast is None && cli.upnp is None && cli.renderer == Some(
            RendererArg::Chromecast,
        ) ==> renderer_merged(before, cli) == RendererPref::Chromecast,
        !cli.mpv && cli.chromecast is None && cli.upnp is None && cli.renderer == Some(
            RendererArg::Upnp,
        ) ==> renderer_merged(before, cli) == RendererPref::Upnp,
{
}

/// A device that is named is remembered; an empty name, or none, leaves the one
/// that was.
pub proof fn lemma_device_flags(before: Option<String>, name: String)
    ensures
        name@.len() > 0 ==> device_merged(before, Some(name), true) == Some(name@),
        name@.len() == 0 ==> device_merged(before, Some(name), true) == crate::text::opt_view(
            before,
        ),
        device_merged(before, Some(name), false) == crate::text::opt_view(before),
        device_merged(before, None, true) == crate::text::opt_view(before),
{
}

/// What a flag says counts, and what none says stays.
pub proof fn lemma_flag_over(flag: String, there: Seq<char>)
    ensures
        over(Some(flag), there) == flag@,
        over(None, there) == there,
{
}

/// A server that a flag points at is the active one, at that address and under
/// the name that goes with it; the flags for its user and token count, and every
/// other server stays as it is.
pub proof fn lemma_server_flag(before: Config, cli: Cli, after: Config)
    requires
        servers_merged(before, cli, after),
        cli.server is Some,
    ensures
        ({
            let url = cli.server->0@;
            let name = match cli.server_name {
                Some(n) => n@,
                None => crate::config::server_name(url),
            };
            &&& after.current_name() == Some(name)
            &&& exists|i: int|
                0 <= i < after.servers@.len() && (#[trigger] after.servers@[i]).name@ == name
                    && after.servers@[i].url@ == url && (cli.token is Some
                    ==> after.servers@[i].access_token@ == cli.token->0@) && (cli.user_id is Some
                    ==> after.servers@[i].user_id@ == cli.user_id->0@) && (cli.user_name is Some
                    ==> after.servers@[i].user_name@ == cli.user_name->0@)
            &&& forall|k: int|
                0 <= k < before.servers@.len() && (#[trigger] before.servers@[k]).name@ != name
                    ==> after.servers@[k] == before.servers@[k]
        }),
{
    let url = cli.server->0@;
    let name = match cli.server_name {
        Some(n) => n@,
        None => crate::config::server_name(url),
    };
    crate::config::lemma_server_index(before.servers@, name, 0);
    match crate::config::server_index(before.servers@, name, 0) {
        Some(i) => {
            assert(after.servers@[i].name@ == name);
            assert forall|k: int|
                0 <= k < before.servers@.len() && (#[trigger] before.servers@[k]).name@
                    != name implies after.servers@[k] == before.servers@[k] by {
                assert(before.servers@.update(i, after.servers@[i])[k] == before.servers@[k]);
            }
        },
        None => {
            let last = after.servers@.len() - 1;
            assert(after.servers@[last] == after.servers@.last());
            assert(after.servers@[last].name@ == name);
            assert forall|k: int|
                0 <= k < before.servers@.len() && (#[trigger] before.servers@[k]).name@
                    != name implies after.servers@[k] == before.servers@[k] by {
                assert(after.servers@.drop_last()[k] == after.servers@[k]);
            }
        },
    }
}

/// An address that has a scheme keeps it, and one that has none gets the plain
/// one; blanks round it and slashes behind it go.
pub proof fn lemma_normal_url(url: Seq<char>)
    requires
        crate::text::trimmed(url) == url,
        url.len() > 0,
        url.last() != '/',
    ensures
        crate::text::starts_with(url, "http://"@) ==> normal_url(url) == url,
        crate::text::starts_with(url, "https://"@) ==> normal_url(url) == url,
        !crate::text::starts_with(url, "http://"@) && !crate::text::starts_with(url, "https://"@)
            ==> normal_url(url) == "http://"@ + url,
        normal_url(url + seq!['/']) == normal_url(url),
{
    let s = url + seq!['/'];
    assert(crate::text::trim_end_char(url, '/') == url);
    assert(s.last() == '/');
    assert(s.drop_last() =~= url);
    assert(crate::text::trim_end_char(s, '/') == url);
    lemma_starts_plain(url);
    assert(s[0] == url[0]);
    assert(crate::text::trim_start(s) == s);
    assert(crate::text::trimmed(s) == s);
}

proof fn lemma_starts_plain(s: Seq<char>)
    requires
        crate::text::trimmed(s) == s,
        s.len() > 0,
    ensures
        !crate::text::is_space(s[0]),
{
    if crate::text::is_space(s[0]) {
        lemma_trims_shorten(s.skip(1));
        lemma_trims_end_shorten(crate::text::trim_start(s.skip(1)));
    }
}

proof fn lemma_trims_shorten(s: Seq<char>)
    ensures
        crate::text::trim_start(s).len() <= s.len(),
    decreases s.len(),
{
    if s.len() > 0 && crate::text::is_space(s[0]) {
        lemma_trims_shorten(s.skip(1));
    }
}

proof fn lemma_trims_end_shorten(s: Seq<char>)
    ensures
        crate::text::trim_end(s).len() <= s.len(),
    decreases s.len(),
{
    if s.len() > 0 && crate::text::is_space(s.last()) {
        lemma_trims_end_shorten(s.drop_last());
    }
}

proof fn lemma_kind_words()
    ensures
        "audio"@ != "video"@ && "audio"@ != "movie"@ && "audio"@ != "movies"@,
        "music"@ != "video"@ && "music"@ != "movie"@ && "music"@ != "movies"@,
        "audio"@.len() == 5,
{
    reveal_strlit("audio");
    reveal_strlit("music");
    reveal_strlit("video");
    reveal_strlit("movie");
    reveal_strlit("movies");
    assert("audio"@[0] == 'a' && "music"@[0] == 'm' && "video"@[0] == 'v' && "movie"@[0] == 'm'
        && "movies"@[0] == 'm' && "music"@[1] == 'u' && "movie"@[1] == 'o' && "movies"@[1] == 'o');
}

/// Music is looked for among tracks, albums and artists, videos among films,
/// series and episodes, and without a word among all of these. What is played
/// is a track or an album, or a film or an episode.
pub proof fn lemma_kinds_asked()
    ensures
        kinds_to_find(Some("audio"@)) == seq!["Audio"@, "MusicAlbum"@, "MusicArtist"@],
        kinds_to_find(Some("music"@)) == kinds_to_find(Some("audio"@)),
        kinds_to_find(Some("video"@)) == seq!["Movie"@, "Series"@, "Episode"@],
        kinds_to_find(Some("movies"@)) == kinds_to_find(Some("video"@)),
        kinds_to_find(None) == kinds_to_find(Some("audio"@)) + kinds_to_find(Some("video"@)),
        kinds_to_play(Some("audio"@)) == seq!["Audio"@, "MusicAlbum"@],
        kinds_to_play(Some("music"@)) == kinds_to_play(Some("audio"@)),
        kinds_to_play(Some("video"@)) == seq!["Movie"@, "Episode"@],
        kinds_to_play(Some("movie"@)) == kinds_to_play(Some("video"@)),
        kinds_to_play(Some("movies"@)) == kinds_to_play(Some("video"@)),
        kinds_to_play(None) == kinds_to_play(Some("audio"@)) + kinds_to_play(Some("video"@)),
{
    lemma_kind_words();
    assert(kinds_to_find(None) =~= kinds_to_find(Some("audio"@)) + kinds_to_find(Some("video"@)));
    assert(kinds_to_play(None) =~= kinds_to_play(Some("audio"@)) + kinds_to_play(Some("video"@)));
}

/// A renderer is told of an item what the item is.
pub proof fn lemma_sent(client: MediaClient, item: BaseItem, format: StreamFormat, q: QueueItem)
    requires
        sent(client, item, format, q),
    ensures
        q.id@ == item.id@,
        q.title@ == item.name@,
        q.subtitle@ == item@.line(),
        q.is_video <==> item@.kind().video(),
        client.streams_at(item, format, q.stream_url@),
        item.run_time_ticks is Some && item.run_time_ticks->0 >= 0 ==> q.duration_secs is Some
            && q.duration_secs->0 == item.run_time_ticks->0 as int / 10_000_000,
        item.run_time_ticks is None ==> q.duration_secs is None,
{
}

/// In the list of servers the active one is marked, and no other; each row shows
/// its name, its address and its user, in the order of the list.
pub proof fn lemma_server_rows(servers: Seq<ServerConfig>, current: Option<Seq<char>>, i: int)
    requires
        0 <= i < servers.len(),
    ensures
        server_list_text(servers, current).len() == servers.len(),
        ({
            let s = servers[i];
            let row = server_list_text(servers, current)[i];
            let mark = if current == Some(s.name@) {
                "▍"@
            } else {
                " "@
            };
            row == mark + " "@ + crate::columns::filled(s.name@, s.name@.len() as int, 20) + " "@
                + crate::columns::filled(s.url@, s.url@.len() as int, 45) + "  as "@
                + s.user_name@
        }),
{
}

/// What is printed names what it is about.
pub proof fn lemma_printed(user: Seq<char>, server: Seq<char>, n: nat, s: ServerConfig, b: BaseView)
    ensures
        login_text(user, server, n)[0] == "✓ signed in as "@ + user + " on `"@ + server
            + "` — now the active server"@,
        n <= 1 ==> login_text(user, server, n).len() == 1,
        n > 1 ==> login_text(user, server, n).len() == 2,
        logout_text(server, None).len() == 2,
        logout_text(server, None)[0] == "✓ removed `"@ + server + "`"@,
        logout_text(server, Some(user))[1] == "  now active: `"@ + user + "`"@,
        switch_text(s) == "✓ active server → `"@ + s.name@ + "` ("@ + s.url@ + ", as "@
            + s.user_name@ + ")"@,
        hit_text(b) == b.kind().sign() + "  "@ + b.name + "   "@ + b.line(),
        started_text(true, user, n, server) == "+ queued "@ + crate::num::dec(n) + " item(s) on "@
            + server,
        started_text(false, user, n, server) == "▶ playing “"@ + user + "” on "@ + server,
{
}

} // verus!
