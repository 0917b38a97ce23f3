//! What `fin` remembers between runs: the saved servers, the preferred
//! renderer and the sound settings.

use vstd::prelude::*;
use vstd::slice::slice_subrange;

use crate::media::ServerKind;
use crate::text::{chars, from_chars, match_at, str_eq};

verus! {

/// One EQ band, in the format of Rockbox's `[[eq_band_settings]]`.
#[derive(Debug, Clone, Copy, PartialEq, Eq, Structural)]
pub struct EqBand {
    /// Cutoff frequency in Hz.
    pub cutoff: i32,
    /// Q × 10 (e.g. `70` = Q 7.0).
    pub q: i32,
    /// Gain × 10 in dB (e.g. `-125` = −12.5 dB).
    pub gain: i32,
}

/// The number of EQ bands.
pub const EQ_BANDS: usize = 10;

/// The standard centre frequency of a band.
pub open spec fn octave_hz(i: int) -> int {
    if i == 0 {
        32
    } else if i == 1 {
        63
    } else if i == 2 {
        125
    } else if i == 3 {
        250
    } else if i == 4 {
        500
    } else if i == 5 {
        1000
    } else if i == 6 {
        2000
    } else if i == 7 {
        4000
    } else if i == 8 {
        8000
    } else {
        16000
    }
}

/// The flat preset: ten octave bands, Q 7.0, no gain.
pub open spec fn flat_bands() -> Seq<EqBand> {
    Seq::new(10, |i: int| EqBand { cutoff: octave_hz(i) as i32, q: 70, gain: 0 })
}

/// The ten-band flat preset of a fresh configuration. Every gain is 0 dB, so
/// the sound is untouched until a band is moved.
pub fn default_eq_band_settings() -> (r: Vec<EqBand>)
    ensures
        r@ == flat_bands(),
{
    let hz: [i32; 10] = [32, 63, 125, 250, 500, 1000, 2000, 4000, 8000, 16000];
    let mut r: Vec<EqBand> = Vec::new();
    let mut i: usize = 0;
    while i < 10
        invariant
            i <= 10,
            hz@.len() == 10,
            forall|k: int| 0 <= k < 10 ==> hz@[k] == octave_hz(k),
            r@ == flat_bands().take(i as int),
        decreases 10 - i,
    {
        r.push(EqBand { cutoff: hz[i], q: 70, gain: 0 });
        i += 1;
        proof {
            assert(r@ =~= flat_bands().take(i as int));
        }
    }
    proof {
        assert(flat_bands().take(10) =~= flat_bands());
    }
    r
}

/// A server that the user has signed in to.
#[derive(Debug)]
pub struct ServerConfig {
    /// Short label that the user picks (or derived from the URL host).
    pub name: String,
    pub url: String,
    pub user_id: String,
    pub user_name: String,
    pub access_token: String,
    pub device_id: String,
    /// What kind of server it is.
    pub server_kind: ServerKind,
}

impl Clone for ServerConfig {
    fn clone(&self) -> (r: Self)
        ensures
            r == *self,
    {
        ServerConfig {
            name: self.name.clone(),
            url: self.url.clone(),
            user_id: self.user_id.clone(),
            user_name: self.user_name.clone(),
            access_token: self.access_token.clone(),
            device_id: self.device_id.clone(),
            server_kind: self.server_kind,
        }
    }
}

/// The single-server slot of old configuration files. It is folded into the
/// server list once and never written again.
#[derive(Debug)]
pub struct LegacyServerConfig {
    pub url: String,
    pub user_id: String,
    pub user_name: String,
    pub access_token: String,
    pub device_id: String,
}

impl Clone for LegacyServerConfig {
    fn clone(&self) -> (r: Self)
        ensures
            r == *self,
    {
        LegacyServerConfig {
            url: self.url.clone(),
            user_id: self.user_id.clone(),
            user_name: self.user_name.clone(),
            access_token: self.access_token.clone(),
            device_id: self.device_id.clone(),
        }
    }
}

/// `s` without the repeated `p` at its front.
pub open spec fn strip_all(s: Seq<char>, p: Seq<char>) -> Seq<char>
    decreases s.len(),
{
    if p.len() > 0 && crate::text::starts_with(s, p) {
        strip_all(s.skip(p.len() as int), p)
    } else {
        s
    }
}

/// Where the host part of a URL without scheme ends.
pub open spec fn host_end(s: Seq<char>, from: int) -> int
    decreases s.len() - from,
{
    if from < 0 || from >= s.len() || s[from] == '/' || s[from] == ':' {
        from
    } else {
        host_end(s, from + 1)
    }
}

/// The host of a URL, or `server` where there is none.
pub open spec fn server_name(url: Seq<char>) -> Seq<char> {
    let t = strip_all(strip_all(url, "https://"@), "http://"@);
    let host = t.take(host_end(t, 0));
    if host.len() == 0 {
        "server"@
    } else {
        host
    }
}

fn strip<'a>(s: &'a [char], p: &[char]) -> (r: &'a [char])
    requires
        p@.len() > 0,
    ensures
        r@ == strip_all(s@, p@),
{
    let mut cur: &'a [char] = s;
    while match_at(cur, p, 0)
        invariant
            p@.len() > 0,
            strip_all(s@, p@) == strip_all(cur@, p@),
        decreases cur@.len(),
    {
        let rest: &'a [char] = slice_subrange(cur, p.len(), cur.len());
        proof {
            assert(rest@ =~= cur@.skip(p@.len() as int));
        }
        cur = rest;
    }
    cur
}

/// Derives a short server name from a URL: the host, without the scheme.
///
///   https://media.example.com:8096/path  →  "media.example.com"
///   http://192.168.1.42                    →  "192.168.1.42"
pub fn derive_server_name(url: &str) -> (r: String)
    ensures
        r@ == server_name(url@),
{
    let cs: Vec<char> = chars(url);
    let https: Vec<char> = chars("https://");
    let http: Vec<char> = chars("http://");
    proof {
        reveal_strlit("https://");
        reveal_strlit("http://");
    }
    let t: &[char] = strip(strip(cs.as_slice(), https.as_slice()), http.as_slice());
    let mut i: usize = 0;
    while i < t.len() && t[i] != '/' && t[i] != ':'
        invariant
            i <= t@.len(),
            host_end(t@, 0) == host_end(t@, i as int),
        decreases t@.len() - i,
    {
        i += 1;
    }
    let host: &[char] = slice_subrange(t, 0, i);
    proof {
        assert(host@ =~= t@.take(host_end(t@, 0)));
    }
    if host.len() == 0 {
        "server".to_owned()
    } else {
        from_chars(host)
    }
}

impl From<LegacyServerConfig> for ServerConfig {
    fn from(l: LegacyServerConfig) -> (r: Self)
        ensures
            r.name@ == server_name(l.url@),
            r.url == l.url,
            r.user_id == l.user_id,
            r.user_name == l.user_name,
            r.access_token == l.access_token,
            r.device_id == l.device_id,
            r.server_kind == ServerKind::Jellyfin,
    {
        let name: String = derive_server_name(l.url.as_str());
        ServerConfig {
            name,
            url: l.url,
            user_id: l.user_id,
            user_name: l.user_name,
            access_token: l.access_token,
            device_id: l.device_id,
            server_kind: ServerKind::Jellyfin,
        }
    }
}

impl vstd::std_specs::convert::FromSpecImpl<LegacyServerConfig> for ServerConfig {
    open spec fn obeys_from_spec() -> bool {
        false
    }

    open spec fn from_spec(l: LegacyServerConfig) -> Self {
        arbitrary()
    }
}

/// Which renderer to start with.
#[derive(Debug, Clone, Copy, PartialEq, Eq, Structural)]
pub enum RendererPref {
    Mpv,
    Chromecast,
    Upnp,
}

impl Default for RendererPref {
    fn default() -> (r: Self)
        ensures
            r == RendererPref::Mpv,
    {
        RendererPref::Mpv
    }
}

impl RendererPref {
    /// The name of a renderer preference.
    pub open spec fn name(self) -> Seq<char> {
        match self {
            RendererPref::Mpv => "mpv"@,
            RendererPref::Chromecast => "chromecast"@,
            RendererPref::Upnp => "upnp"@,
        }
    }

    pub fn label(&self) -> (r: &'static str)
        ensures
            r@ == self.name(),
    {
        match self {
            RendererPref::Mpv => "mpv",
            RendererPref::Chromecast => "chromecast",
            RendererPref::Upnp => "upnp",
        }
    }
}

/// Which scope of ReplayGain to honour at playback time.
#[derive(Debug, Clone, Copy, PartialEq, Eq, Structural)]
pub enum ReplayGainMode {
    Off,
    Track,
    Album,
}

impl Default for ReplayGainMode {
    fn default() -> (r: Self)
        ensures
            r == ReplayGainMode::Off,
    {
        ReplayGainMode::Off
    }
}

impl ReplayGainMode {
    /// The name of a mode.
    pub open spec fn name(self) -> Seq<char> {
        match self {
            ReplayGainMode::Off => "off"@,
            ReplayGainMode::Track => "track"@,
            ReplayGainMode::Album => "album"@,
        }
    }

    /// The mode that follows in the cycle off, track, album.
    pub open spec fn successor(self) -> ReplayGainMode {
        match self {
            ReplayGainMode::Off => ReplayGainMode::Track,
            ReplayGainMode::Track => ReplayGainMode::Album,
            ReplayGainMode::Album => ReplayGainMode::Off,
        }
    }

    pub fn label(&self) -> (r: &'static str)
        ensures
            r@ == self.name(),
    {
        match self {
            ReplayGainMode::Off => "off",
            ReplayGainMode::Track => "track",
            ReplayGainMode::Album => "album",
        }
    }

    pub fn next(self) -> (r: Self)
        ensures
            r == self.successor(),
    {
        match self {
            ReplayGainMode::Off => ReplayGainMode::Track,
            ReplayGainMode::Track => ReplayGainMode::Album,
            ReplayGainMode::Album => ReplayGainMode::Off,
        }
    }

    pub fn is_active(&self) -> (r: bool)
        ensures
            r == (*self != ReplayGainMode::Off),
    {
        !matches!(self, ReplayGainMode::Off)
    }
}

/// ReplayGain as the configuration holds it.
#[derive(Debug, Clone, Copy, PartialEq, Eq, Structural)]
pub struct ReplayGainSettings {
    pub mode: ReplayGainMode,
    /// Preamplification in thousandths of a dB.
    pub preamp_mdb: i32,
    pub prevent_clip: bool,
}

/// Clipping is prevented unless the user says otherwise.
pub fn default_replaygain_prevent_clip() -> (r: bool)
    ensures
        r,
{
    true
}

impl Default for ReplayGainSettings {
    fn default() -> (r: Self)
        ensures
            r == (ReplayGainSettings {
                mode: ReplayGainMode::Off,
                preamp_mdb: 0,
                prevent_clip: true,
            }),
    {
        ReplayGainSettings {
            mode: ReplayGainMode::Off,
            preamp_mdb: 0,
            prevent_clip: default_replaygain_prevent_clip(),
        }
    }
}

/// How to blend adjacent tracks in the playback queue.
#[derive(Debug, Clone, Copy, PartialEq, Eq, Structural)]
pub enum CrossfadeMode {
    Off,
    /// The outgoing track fades out while the incoming one fades in.
    Crossfade,
    /// No fade: both tracks play at full volume during the overlap.
    Mixed,
}

impl Default for CrossfadeMode {
    fn default() -> (r: Self)
        ensures
            r == CrossfadeMode::Off,
    {
        CrossfadeMode::Off
    }
}

impl CrossfadeMode {
    /// The name of a mode.
    pub open spec fn name(self) -> Seq<char> {
        match self {
            CrossfadeMode::Off => "off"@,
            CrossfadeMode::Crossfade => "crossfade"@,
            CrossfadeMode::Mixed => "mixed"@,
        }
    }

    /// The mode that follows in the cycle off, crossfade, mixed.
    pub open spec fn successor(self) -> CrossfadeMode {
        match self {
            CrossfadeMode::Off => CrossfadeMode::Crossfade,
            CrossfadeMode::Crossfade => CrossfadeMode::Mixed,
            CrossfadeMode::Mixed => CrossfadeMode::Off,
        }
    }

    pub fn label(&self) -> (r: &'static str)
        ensures
            r@ == self.name(),
    {
        match self {
            CrossfadeMode::Off => "off",
            CrossfadeMode::Crossfade => "crossfade",
            CrossfadeMode::Mixed => "mixed",
        }
    }

    pub fn next(self) -> (r: Self)
        ensures
            r == self.successor(),
    {
        match self {
            CrossfadeMode::Off => CrossfadeMode::Crossfade,
            CrossfadeMode::Crossfade => CrossfadeMode::Mixed,
            CrossfadeMode::Mixed => CrossfadeMode::Off,
        }
    }

    pub fn is_active(&self) -> (r: bool)
        ensures
            r == (*self != CrossfadeMode::Off),
    {
        !matches!(self, CrossfadeMode::Off)
    }
}

/// Crossfading as the configuration holds it.
#[derive(Debug, Clone, Copy, PartialEq, Eq, Structural)]
pub struct CrossfadeSettings {
    pub mode: CrossfadeMode,
    /// Overlap in milliseconds. It matters only where the mode is active.
    pub duration_ms: u32,
}

impl Default for CrossfadeSettings {
    fn default() -> (r: Self)
        ensures
            r == (CrossfadeSettings { mode: CrossfadeMode::Off, duration_ms: 5000 }),
    {
        CrossfadeSettings { mode: CrossfadeMode::Off, duration_ms: 5000 }
    }
}

/// Turning either mode three times leads back to where it began, and the
/// three modes on the way differ.
pub proof fn lemma_mode_cycles(r: ReplayGainMode, c: CrossfadeMode)
    ensures
        r.successor().successor().successor() == r,
        r.successor() != r,
        r.successor().successor() != r,
        c.successor().successor().successor() == c,
        c.successor() != c,
        c.successor().successor() != c,
{
}

/// The version that the client reports.
pub const VERSION: &'static str = "0.3.1";

/// How the client names itself to a server.
#[derive(Debug)]
pub struct ClientInfo {
    pub name: String,
    pub version: String,
}

impl Clone for ClientInfo {
    fn clone(&self) -> (r: Self)
        ensures
            r == *self,
    {
        ClientInfo { name: self.name.clone(), version: self.version.clone() }
    }
}

impl Default for ClientInfo {
    fn default() -> (r: Self)
        ensures
            r.name@ == "fin"@,
            r.version@ == VERSION@,
    {
        ClientInfo { name: "fin".to_owned(), version: VERSION.to_owned() }
    }
}

/// Everything that is kept in the configuration file.
#[derive(Debug)]
pub struct Config {
    /// Name of the active server (must exist in `servers`).
    pub current_server: Option<String>,
    /// All servers that the user has authenticated against.
    pub servers: Vec<ServerConfig>,
    /// The single-server slot of old files, folded into `servers` on loading.
    pub server: Option<LegacyServerConfig>,
    pub renderer: RendererPref,
    pub last_chromecast: Option<String>,
    pub last_upnp: Option<String>,
    pub client: ClientInfo,
    pub replaygain: ReplayGainSettings,
    pub crossfade: CrossfadeSettings,
    pub eq_enabled: bool,
    /// Band 0 is a low shelf, band 9 a high shelf, the rest are peaking
    /// filters.
    pub eq_band_settings: Vec<EqBand>,
    /// Bass shelf gain in whole dB, −24 to +24.
    pub bass: i32,
    /// Treble shelf gain in whole dB, −24 to +24.
    pub treble: i32,
    /// Bass shelf cutoff in Hz; 0 stands for 200 Hz.
    pub bass_cutoff: i32,
    /// Treble shelf cutoff in Hz; 0 stands for 3500 Hz.
    pub treble_cutoff: i32,
}

/// The first position at or behind `from` of a server with this name.
pub open spec fn server_index(
    servers: Seq<ServerConfig>,
    name: Seq<char>,
    from: int,
) -> Option<int>
    decreases servers.len() - from,
{
    if from < 0 || from >= servers.len() {
        None
    } else if servers[from].name@ == name {
        Some(from)
    } else {
        server_index(servers, name, from + 1)
    }
}

/// What `server_index` promises.
pub proof fn lemma_server_index(servers: Seq<ServerConfig>, name: Seq<char>, from: int)
    requires
        0 <= from,
    ensures
        match server_index(servers, name, from) {
            Some(i) => from <= i < servers.len() && servers[i].name@ == name && forall|j: int|
                from <= j < i ==> (#[trigger] servers[j]).name@ != name,
            None => forall|j: int|
                from <= j < servers.len() ==> (#[trigger] servers[j]).name@ != name,
        },
    decreases servers.len() - from,
{
    if from < servers.len() && servers[from].name@ != name {
        lemma_server_index(servers, name, from + 1);
    }
}

/// Finds the first server with this name.
fn find_index(servers: &Vec<ServerConfig>, name: &str) -> (r: Option<usize>)
    ensures
        match r {
            Some(i) => server_index(servers@, name@, 0) == Some(i as int) && i < servers@.len()
                && servers@[i as int].name@ == name@,
            None => server_index(servers@, name@, 0) is None,
        },
{
    let mut i: usize = 0;
    while i < servers.len()
        invariant
            i <= servers@.len(),
            server_index(servers@, name@, 0) == server_index(servers@, name@, i as int),
        decreases servers@.len() - i,
    {
        if str_eq(servers[i].name.as_str(), name) {
            return Some(i);
        }
        i += 1;
    }
    None
}

/// Why a change of the server list is refused.
#[derive(Debug, Clone, Copy, PartialEq, Eq, Structural)]
pub enum ServerError {
    /// No server has the name.
    NotFound,
    /// No server is active.
    NoneActive,
    /// Another server has the new name already.
    NameTaken,
}

impl Config {
    /// Two configurations that differ in their servers at most.
    pub open spec fn same_settings(self, o: Config) -> bool {
        &&& self.renderer == o.renderer
        &&& self.last_chromecast == o.last_chromecast
        &&& self.last_upnp == o.last_upnp
        &&& self.client == o.client
        &&& self.replaygain == o.replaygain
        &&& self.crossfade == o.crossfade
        &&& self.eq_enabled == o.eq_enabled
        &&& self.eq_band_settings@ == o.eq_band_settings@
        &&& self.bass == o.bass
        &&& self.treble == o.treble
        &&& self.bass_cutoff == o.bass_cutoff
        &&& self.treble_cutoff == o.treble_cutoff
    }

    /// The name of the active server, as it is written down.
    pub open spec fn current_name(self) -> Option<Seq<char>> {
        crate::text::opt_view(self.current_server)
    }

    /// Where the active server stands in the list.
    pub open spec fn current_index(self) -> Option<int> {
        match self.current_name() {
            Some(n) => server_index(self.servers@, n, 0),
            None => None,
        }
    }

    /// The active server is one of the list, and there is one unless the list
    /// is empty.
    pub open spec fn consistent(self) -> bool {
        if self.servers@.len() == 0 {
            self.current_name() is None
        } else {
            self.current_index() is Some
        }
    }

    /// The active server.
    pub fn current(&self) -> (r: Option<&ServerConfig>)
        ensures
            match r {
                Some(s) => self.current_index() is Some && *s
                    == self.servers@[self.current_index()->0],
                None => self.current_index() is None,
            },
    {
        match &self.current_server {
            None => None,
            Some(name) => match find_index(&self.servers, name.as_str()) {
                Some(i) => Some(&self.servers[i]),
                None => None,
            },
        }
    }

    /// The active server, or the reason why there is none.
    pub fn require_current(&self) -> (r: Result<&ServerConfig, ServerError>)
        ensures
            match r {
                Ok(s) => self.current_index() is Some && *s
                    == self.servers@[self.current_index()->0],
                Err(e) => self.current_index() is None && e == ServerError::NoneActive,
            },
    {
        match self.current() {
            Some(s) => Ok(s),
            None => Err(ServerError::NoneActive),
        }
    }

    /// The first server with this name.
    pub fn find_server(&self, name: &str) -> (r: Option<&ServerConfig>)
        ensures
            match r {
                Some(s) => server_index(self.servers@, name@, 0) is Some && *s
                    == self.servers@[server_index(self.servers@, name@, 0)->0],
                None => server_index(self.servers@, name@, 0) is None,
            },
    {
        match find_index(&self.servers, name) {
            Some(i) => Some(&self.servers[i]),
            None => None,
        }
    }

    /// Adds or updates a server (by its name) and makes it the active one.
    pub fn add_or_update_server(&mut self, server: ServerConfig)
        ensures
            final(self).servers@ == (match server_index(old(self).servers@, server.name@, 0) {
                Some(i) => old(self).servers@.update(i, server),
                None => old(self).servers@.push(server),
            }),
            final(self).current_name() == Some(server.name@),
            final(self).consistent(),
            final(self).server == old(self).server,
            final(self).same_settings(*old(self)),
    {
        proof {
            lemma_add_keeps_consistent(self.servers@, server);
        }
        let name: String = server.name.clone();
        match find_index(&self.servers, name.as_str()) {
            Some(i) => {
                self.servers.set(i, server);
            },
            None => {
                self.servers.push(server);
            },
        }
        self.current_server = Some(name);
    }

    /// Switches the active server by name.
    pub fn switch_to(&mut self, name: &str) -> (r: Result<(), ServerError>)
        ensures
            r is Ok <==> server_index(old(self).servers@, name@, 0) is Some,
            r is Err ==> r->Err_0 == ServerError::NotFound && *final(self) == *old(self),
            r is Ok ==> final(self).current_name() == Some(name@) && final(self).consistent(),
            final(self).servers@ == old(self).servers@,
            final(self).server == old(self).server,
            final(self).same_settings(*old(self)),
    {
        if find_index(&self.servers, name).is_none() {
            return Err(ServerError::NotFound);
        }
        self.current_server = Some(name.to_owned());
        Ok(())
    }
}

impl Default for Config {
    fn default() -> (r: Self)
        ensures
            r.current_name() is None,
            r.servers@.len() == 0,
            r.server is None,
            r.renderer == RendererPref::Mpv,
            r.last_chromecast is None,
            r.last_upnp is None,
            r.client.name@ == "fin"@,
            r.client.version@ == VERSION@,
            r.replaygain == (ReplayGainSettings {
                mode: ReplayGainMode::Off,
                preamp_mdb: 0,
                prevent_clip: true,
            }),
            r.crossfade == (CrossfadeSettings { mode: CrossfadeMode::Off, duration_ms: 5000 }),
            !r.eq_enabled,
            r.eq_band_settings@.len() == 0,
            r.bass == 0,
            r.treble == 0,
            r.bass_cutoff == 0,
            r.treble_cutoff == 0,
    {
        Config {
            current_server: None,
            servers: Vec::new(),
            server: None,
            renderer: RendererPref::default(),
            last_chromecast: None,
            last_upnp: None,
            client: ClientInfo::default(),
            replaygain: ReplayGainSettings::default(),
            crossfade: CrossfadeSettings::default(),
            eq_enabled: false,
            eq_band_settings: Vec::new(),
            bass: 0,
            treble: 0,
            bass_cutoff: 0,
            treble_cutoff: 0,
        }
    }
}

/// The servers that do not have this name.
pub open spec fn without_name(servers: Seq<ServerConfig>, name: Seq<char>) -> Seq<ServerConfig> {
    servers.filter(|s: ServerConfig| s.name@ != name)
}

/// The bands of a configuration after loading: as they are where there are
/// ten, and filled up from the flat preset where there are fewer.
pub open spec fn filled_bands(bands: Seq<EqBand>) -> Seq<EqBand> {
    if bands.len() < 10 {
        bands + flat_bands().skip(bands.len() as int)
    } else {
        bands
    }
}

impl Config {
    /// The name of the first server, if there is one.
    pub open spec fn first_name(servers: Seq<ServerConfig>) -> Option<Seq<char>> {
        if servers.len() > 0 {
            Some(servers[0].name@)
        } else {
            None
        }
    }

    fn first(&self) -> (r: Option<String>)
        ensures
            crate::text::opt_view(r) == Config::first_name(self.servers@),
    {
        if self.servers.len() > 0 {
            Some(self.servers[0].name.clone())
        } else {
            None
        }
    }

    /// Removes every server with this name. Where the active one goes, the
    /// first that remains takes its place.
    pub fn remove_server(&mut self, name: &str) -> (r: Result<(), ServerError>)
        ensures
            r is Ok <==> server_index(old(self).servers@, name@, 0) is Some,
            r is Err ==> r->Err_0 == ServerError::NotFound,
            final(self).servers@ == without_name(old(self).servers@, name@),
            r is Err ==> final(self).servers@ == old(self).servers@,
            final(self).current_name() == (if r is Ok && old(self).current_name() == Some(name@) {
                Config::first_name(final(self).servers@)
            } else {
                old(self).current_name()
            }),
            old(self).consistent() ==> final(self).consistent(),
            final(self).server == old(self).server,
            final(self).same_settings(*old(self)),
    {
        let ghost all = self.servers@;
        let ghost keep = |s: ServerConfig| s.name@ != name@;
        proof {
            if self.consistent() {
                lemma_remove_keeps_consistent(all, self.current_name(), name@);
            }
        }
        let mut kept: Vec<ServerConfig> = Vec::new();
        let n: usize = self.servers.len();
        let mut i: usize = 0;
        proof {
            lemma_server_index(all, name@, 0);
            assert(all.take(0).filter(keep) =~= Seq::empty()) by {
                reveal(Seq::filter);
            }
        }
        while i < n
            invariant
                i <= n,
                n == all.len(),
                self.servers@ == all,
                keep == (|s: ServerConfig| s.name@ != name@),
                kept@ == all.take(i as int).filter(keep),
                kept@.len() <= i,
                kept@.len() == i <==> (forall|j: int|
                    0 <= j < i ==> (#[trigger] all[j]).name@ != name@),
                kept@.len() == i ==> kept@ == all.take(i as int),
            decreases n - i,
        {
            proof {
                reveal(Seq::filter);
                assert(all.take(i as int + 1).drop_last() =~= all.take(i as int));
                assert(all.take(i as int + 1).last() == all[i as int]);
                assert(all.take(i as int + 1) =~= all.take(i as int).push(all[i as int]));
            }
            if !str_eq(self.servers[i].name.as_str(), name) {
                let s: ServerConfig = self.servers[i].clone();
                kept.push(s);
            }
            i += 1;
        }
        proof {
            assert(all.take(n as int) =~= all);
        }
        let removed: bool = kept.len() < n;
        self.servers = kept;
        if !removed {
            return Err(ServerError::NotFound);
        }
        let was_current: bool = match &self.current_server {
            Some(c) => str_eq(c.as_str(), name),
            None => false,
        };
        if was_current {
            self.current_server = self.first();
        }
        Ok(())
    }

    /// The position that follows the active server's, round the list.
    pub open spec fn next_index(self) -> int {
        let cur = match self.current_index() {
            Some(i) => i,
            None => 0,
        };
        (cur + 1) % (self.servers@.len() as int)
    }

    /// Makes the next server of the list the active one and gives it back.
    pub fn cycle_next(&mut self) -> (r: Option<&ServerConfig>)
        ensures
            old(self).servers@.len() == 0 ==> r is None && *final(self) == *old(self),
            old(self).servers@.len() > 0 ==> r is Some && *r->0
                == old(self).servers@[old(self).next_index()] && final(self).current_name()
                == Some(old(self).servers@[old(self).next_index()].name@),
            old(self).servers@.len() > 0 ==> final(self).consistent(),
            final(self).servers@ == old(self).servers@,
            final(self).server == old(self).server,
            final(self).same_settings(*old(self)),
    {
        let n: usize = self.servers.len();
        if n == 0 {
            return None;
        }
        let cur: usize = match &self.current_server {
            Some(name) => match find_index(&self.servers, name.as_str()) {
                Some(i) => i,
                None => 0,
            },
            None => 0,
        };
        let next: usize = (cur + 1) % n;
        proof {
            lemma_server_index(self.servers@, self.servers@[next as int].name@, 0);
        }
        self.current_server = Some(self.servers[next].name.clone());
        Some(&self.servers[next])
    }

    /// Fills the EQ up to ten bands, so that every band has a slider.
    pub fn ensure_eq_bands(&mut self)
        ensures
            final(self).eq_band_settings@ == filled_bands(old(self).eq_band_settings@),
            final(self).servers@ == old(self).servers@,
            final(self).current_server == old(self).current_server,
            final(self).server == old(self).server,
            final(self).renderer == old(self).renderer,
            final(self).last_chromecast == old(self).last_chromecast,
            final(self).last_upnp == old(self).last_upnp,
            final(self).client == old(self).client,
            final(self).replaygain == old(self).replaygain,
            final(self).crossfade == old(self).crossfade,
            final(self).eq_enabled == old(self).eq_enabled,
            final(self).bass == old(self).bass,
            final(self).treble == old(self).treble,
            final(self).bass_cutoff == old(self).bass_cutoff,
            final(self).treble_cutoff == old(self).treble_cutoff,
    {
        if self.eq_band_settings.len() < 10 {
            let defaults: Vec<EqBand> = default_eq_band_settings();
            let ghost start = self.eq_band_settings@;
            let mut bands: Vec<EqBand> = Vec::new();
            let n: usize = self.eq_band_settings.len();
            let mut i: usize = 0;
            while i < 10
                invariant
                    i <= 10,
                    n == start.len(),
                    n < 10,
                    self.eq_band_settings@ == start,
                    defaults@ == flat_bands(),
                    bands@ == filled_bands(start).take(i as int),
                decreases 10 - i,
            {
                if i < n {
                    bands.push(self.eq_band_settings[i]);
                } else {
                    bands.push(defaults[i]);
                }
                i += 1;
                proof {
                    assert(bands@ =~= filled_bands(start).take(i as int));
                }
            }
            proof {
                assert(filled_bands(start).take(10) =~= filled_bands(start));
            }
            self.eq_band_settings = bands;
        }
    }
}

impl Config {
    /// The name and the server that the old slot of a configuration stands for.
    pub open spec fn migrated_from(s: ServerConfig, l: LegacyServerConfig) -> bool {
        &&& s.name@ == server_name(l.url@)
        &&& s.url == l.url
        &&& s.user_id == l.user_id
        &&& s.user_name == l.user_name
        &&& s.access_token == l.access_token
        &&& s.device_id == l.device_id
        &&& s.server_kind == ServerKind::Jellyfin
    }

    /// The old slot holds the only server.
    pub open spec fn to_migrate(self) -> bool {
        self.server is Some && self.servers@.len() == 0
    }

    /// `after` is this configuration with its old slot folded into the list.
    pub open spec fn migrates_to(self, after: Config) -> bool {
        &&& after.server is None
        &&& !self.to_migrate() ==> after.servers@ == self.servers@
        &&& self.to_migrate() ==> after.servers@.len() == 1 && Config::migrated_from(
            after.servers@[0],
            self.server->0,
        )
        &&& after.current_name() == (if self.current_name() is Some {
            self.current_name()
        } else if self.to_migrate() {
            Some(server_name(self.server->0.url@))
        } else {
            Config::first_name(self.servers@)
        })
        &&& after.same_settings(self)
    }

    /// Makes the single-server slot of an old file the list, unless there is a
    /// list already: that one wins, and the slot is ignored. Sees to it that a
    /// server is active.
    pub fn migrate_legacy_server(&mut self)
        ensures
            old(self).migrates_to(*final(self)),
            old(self).servers@.len() > 0 ==> final(self).servers@ == old(self).servers@,
            final(self).server is None,
            (old(self).current_name() is None || old(self).current_index() is Some)
                ==> final(self).consistent(),
    {
        if let Some(legacy) = self.server.take() {
            if self.servers.len() == 0 {
                let migrated: ServerConfig = ServerConfig::from(legacy);
                self.servers.push(migrated);
            }
        }
        if self.current_server.is_none() {
            self.current_server = self.first();
        }
        proof {
            let after = self.servers@;
            if let Some(c) = self.current_name() {
                lemma_server_index(old(self).servers@, c, 0);
                lemma_server_index(after, c, 0);
                if old(self).current_name() is None {
                    assert(after.len() > 0);
                    assert(after[0].name@ == c);
                }
            }
        }
    }

    /// Gives a server another name. The active server stays active.
    pub fn rename_server(&mut self, from: &str, to: &str) -> (r: Result<(), ServerError>)
        ensures
            r == (if server_index(old(self).servers@, from@, 0) is None {
                Err::<(), ServerError>(ServerError::NotFound)
            } else if server_index(old(self).servers@, to@, 0) is Some {
                Err(ServerError::NameTaken)
            } else {
                Ok(())
            }),
            r is Err ==> *final(self) == *old(self),
            r is Ok ==> ({
                let i = server_index(old(self).servers@, from@, 0)->0;
                let s = final(self).servers@[i];
                &&& final(self).servers@ == old(self).servers@.update(i, s)
                &&& s.name@ == to@
                &&& s == (ServerConfig { name: s.name, ..old(self).servers@[i] })
            }),
            r is Ok ==> final(self).current_name() == (if old(self).current_name() == Some(from@) {
                Some(to@)
            } else {
                old(self).current_name()
            }),
            old(self).consistent() ==> final(self).consistent(),
            final(self).server == old(self).server,
            final(self).same_settings(*old(self)),
    {
        let idx: usize = match find_index(&self.servers, from) {
            Some(i) => i,
            None => {
                return Err(ServerError::NotFound);
            },
        };
        if find_index(&self.servers, to).is_some() {
            return Err(ServerError::NameTaken);
        }
        let mut s: ServerConfig = self.servers[idx].clone();
        s.name = to.to_owned();
        self.servers.set(idx, s);
        let was_current: bool = match &self.current_server {
            Some(c) => str_eq(c.as_str(), from),
            None => false,
        };
        if was_current {
            self.current_server = Some(to.to_owned());
        }
        proof {
            let before = old(self).servers@;
            let after = self.servers@;
            lemma_server_index(before, from@, 0);
            lemma_server_index(after, to@, 0);
            if let Some(c) = old(self).current_name() {
                lemma_server_index(before, c, 0);
                lemma_server_index(after, c, 0);
                if c != from@ && old(self).consistent() {
                    let k = server_index(before, c, 0)->0;
                    assert(after[k] == before[k]);
                }
            }
        }
        Ok(())
    }
}

/// A configuration with servers has one of them active after a server was
/// added, whatever was active before.
pub proof fn lemma_add_keeps_consistent(servers: Seq<ServerConfig>, server: ServerConfig)
    ensures
        ({
            let after = match server_index(servers, server.name@, 0) {
                Some(i) => servers.update(i, server),
                None => servers.push(server),
            };
            server_index(after, server.name@, 0) is Some
        }),
{
    lemma_server_index(servers, server.name@, 0);
    let after = match server_index(servers, server.name@, 0) {
        Some(i) => servers.update(i, server),
        None => servers.push(server),
    };
    let k = match server_index(servers, server.name@, 0) {
        Some(i) => i,
        None => servers.len() as int,
    };
    assert(after[k].name@ == server.name@);
    lemma_server_index(after, server.name@, 0);
}

/// Removing a server leaves none with its name, and the active name is one of
/// the list again wherever it was so before.
pub proof fn lemma_remove_keeps_consistent(
    servers: Seq<ServerConfig>,
    current: Option<Seq<char>>,
    name: Seq<char>,
)
    requires
        current is Some ==> server_index(servers, current->0, 0) is Some,
    ensures
        ({
            let after = without_name(servers, name);
            let now = if current == Some(name) {
                Config::first_name(after)
            } else {
                current
            };
            &&& server_index(after, name, 0) is None
            &&& now is Some ==> server_index(after, now->0, 0) is Some
        }),
{
    broadcast use vstd::seq_lib::group_filter_ensures;

    let keep = |s: ServerConfig| s.name@ != name;
    let after = without_name(servers, name);
    lemma_server_index(after, name, 0);
    if server_index(after, name, 0) is Some {
        let i = server_index(after, name, 0)->0;
        assert(keep(after[i]));
    }
    if current == Some(name) {
        if after.len() > 0 {
            lemma_server_index(after, after[0].name@, 0);
        }
    } else if current is Some {
        lemma_server_index(servers, current->0, 0);
        let i = server_index(servers, current->0, 0)->0;
        assert(keep(servers[i]));
        assert(after.contains(servers[i]));
        let k = choose|k: int| 0 <= k < after.len() && after[k] == servers[i];
        assert(after[k].name@ == current->0);
        lemma_server_index(after, current->0, 0);
    }
}

/// Stepping from server to server goes round the list: where the names
/// differ, as many steps as there are servers lead back to the first one.
pub proof fn lemma_cycle_visits(servers: Seq<ServerConfig>, start: int, steps: nat)
    requires
        0 <= start < servers.len(),
        forall|i: int, j: int|
            0 <= i < j < servers.len() ==> (#[trigger] servers[i]).name@ != (
            #[trigger] servers[j]).name@,
    ensures
        cycle_position(servers, start, steps) == (start + steps) % (servers.len() as int),
    decreases steps,
{
    let n = servers.len() as int;
    if steps == 0 {
        assert((start + 0) % n == start) by (nonlinear_arith)
            requires
                0 <= start < n,
        ;
    } else {
        let p = cycle_position(servers, start, (steps - 1) as nat);
        lemma_cycle_visits(servers, start, (steps - 1) as nat);
        assert(0 <= p < n) by (nonlinear_arith)
            requires
                p == (start + (steps - 1)) % n,
                n > 0,
        ;
        lemma_server_index(servers, servers[p].name@, 0);
        assert(server_index(servers, servers[p].name@, 0) == Some(p));
        let a = start + (steps - 1);
        assert((a % n + 1) % n == (a + 1) % n) by {
            vstd::arithmetic::div_mod::lemma_add_mod_noop(a, 1, n);
            if n == 1 {
            } else {
                vstd::arithmetic::div_mod::lemma_small_mod(1, n as nat);
            }
        }
    }
}

/// The position of the active server after this many steps of `cycle_next`
/// from `start`.
pub open spec fn cycle_position(servers: Seq<ServerConfig>, start: int, steps: nat) -> int
    decreases steps,
{
    if steps == 0 {
        start
    } else {
        let p = cycle_position(servers, start, (steps - 1) as nat);
        match server_index(servers, servers[p].name@, 0) {
            Some(i) => (i + 1) % (servers.len() as int),
            None => 1int % (servers.len() as int),
        }
    }
}

/// Filling the bands gives at least ten, keeps those that were there, and
/// does nothing the second time.
pub proof fn lemma_filled_bands(bands: Seq<EqBand>)
    ensures
        filled_bands(bands).len() >= 10,
        filled_bands(bands).take(bands.len() as int) == bands,
        filled_bands(filled_bands(bands)) == filled_bands(bands),
{
    assert(filled_bands(bands).take(bands.len() as int) =~= bands);
}

/// Folding the old slot in a second time changes nothing, and a list with
/// servers has one of them named as active afterwards.
pub proof fn lemma_migrate_idempotent(before: Config, once: Config, twice: Config)
    requires
        before.migrates_to(once),
        once.migrates_to(twice),
    ensures
        twice.servers@ == once.servers@,
        twice.current_name() == once.current_name(),
        twice.server is None,
        once.servers@.len() > 0 ==> once.current_name() is Some,
{
}

/// `v` held between two limits.
pub open spec fn clamped(v: int, lo: int, hi: int) -> int {
    if v < lo {
        lo
    } else if v > hi {
        hi
    } else {
        v
    }
}

fn clamp(v: i64, lo: i32, hi: i32) -> (r: i32)
    requires
        lo <= hi,
    ensures
        r == clamped(v as int, lo as int, hi as int),
{
    if v < lo as i64 {
        lo
    } else if v > hi as i64 {
        hi
    } else {
        v as i32
    }
}

/// The largest gain of a tone shelf, in dB.
pub const TONE_LIMIT_DB: i32 = 24;

/// The largest gain of an EQ band, in tenths of a dB.
pub const BAND_LIMIT: i32 = 240;

impl Config {
    /// Two configurations that differ in their sound settings at most.
    pub open spec fn same_servers(self, o: Config) -> bool {
        &&& self.servers@ == o.servers@
        &&& self.current_server == o.current_server
        &&& self.server == o.server
        &&& self.renderer == o.renderer
        &&& self.last_chromecast == o.last_chromecast
        &&& self.last_upnp == o.last_upnp
        &&& self.client == o.client
        &&& self.replaygain == o.replaygain
        &&& self.crossfade == o.crossfade
        &&& self.eq_enabled == o.eq_enabled
    }

    /// Moves the bass and treble shelves, each held within ±24 dB.
    pub fn nudge_tone(&mut self, d_bass: i32, d_treble: i32)
        ensures
            final(self).bass == clamped(old(self).bass + d_bass, -24, 24),
            final(self).treble == clamped(old(self).treble + d_treble, -24, 24),
            final(self).bass_cutoff == old(self).bass_cutoff,
            final(self).treble_cutoff == old(self).treble_cutoff,
            final(self).eq_band_settings@ == old(self).eq_band_settings@,
            final(self).same_servers(*old(self)),
    {
        self.bass = clamp(self.bass as i64 + d_bass as i64, -TONE_LIMIT_DB, TONE_LIMIT_DB);
        self.treble = clamp(self.treble as i64 + d_treble as i64, -TONE_LIMIT_DB, TONE_LIMIT_DB);
    }

    /// The band that a selection means: itself, or the last one.
    pub open spec fn selected_band(self, selected: int) -> int {
        if selected < self.eq_band_settings@.len() {
            selected
        } else {
            self.eq_band_settings@.len() - 1
        }
    }

    /// Moves the gain of the selected band by tenths of a dB, held within
    /// ±24 dB, and says which band that was. Without bands nothing happens.
    pub fn nudge_eq_band_gain(&mut self, selected: usize, delta_tenths: i32) -> (r: Option<usize>)
        ensures
            r is None <==> old(self).eq_band_settings@.len() == 0,
            r is None ==> *final(self) == *old(self),
            r is Some ==> ({
                let i = old(self).selected_band(selected as int);
                let b = old(self).eq_band_settings@[i];
                &&& r->0 == i
                &&& final(self).eq_band_settings@ == old(self).eq_band_settings@.update(
                    i,
                    (EqBand { gain: clamped(b.gain + delta_tenths, -240, 240) as i32, ..b }),
                )
            }),
            final(self).bass == old(self).bass,
            final(self).treble == old(self).treble,
            final(self).bass_cutoff == old(self).bass_cutoff,
            final(self).treble_cutoff == old(self).treble_cutoff,
            final(self).same_servers(*old(self)),
    {
        let n: usize = self.eq_band_settings.len();
        if n == 0 {
            return None;
        }
        let idx: usize = if selected < n {
            selected
        } else {
            n - 1
        };
        let mut band: EqBand = self.eq_band_settings[idx];
        band.gain = clamp(band.gain as i64 + delta_tenths as i64, -BAND_LIMIT, BAND_LIMIT);
        self.eq_band_settings.set(idx, band);
        Some(idx)
    }
}

/// The overlap that follows in the cycle of 3, 5, 8 and 12 seconds: the
/// shortest that is longer by more than a millisecond, else the first.
pub open spec fn next_overlap(ms: nat) -> nat {
    if 3000 > ms + 1 {
        3000
    } else if 5000 > ms + 1 {
        5000
    } else if 8000 > ms + 1 {
        8000
    } else if 12000 > ms + 1 {
        12000
    } else {
        3000
    }
}

impl CrossfadeSettings {
    /// The settings with the next of the common overlaps. The mode stays.
    pub fn next_duration(self) -> (r: Self)
        ensures
            r.mode == self.mode,
            r.duration_ms == next_overlap(self.duration_ms as nat),
    {
        let durations: [u32; 4] = [3000, 5000, 8000, 12000];
        let mut i: usize = 0;
        while i < 4
            invariant
                i <= 4,
                durations@ == seq![3000u32, 5000u32, 8000u32, 12000u32],
                forall|k: int| 0 <= k < i ==> durations@[k] <= self.duration_ms + 1,
            decreases 4 - i,
        {
            if durations[i] > 1 && durations[i] - 1 > self.duration_ms {
                return CrossfadeSettings { mode: self.mode, duration_ms: durations[i] };
            }
            i += 1;
        }
        proof {
            assert(durations@[3] <= self.duration_ms + 1);
        }
        CrossfadeSettings { mode: self.mode, duration_ms: durations[0] }
    }
}

/// From any overlap, the cycle runs through 3, 5, 8 and 12 seconds and comes
/// back to where it entered.
pub proof fn lemma_overlap_cycle(ms: nat)
    ensures
        ({
            let a = next_overlap(ms);
            next_overlap(next_overlap(next_overlap(next_overlap(a)))) == a
        }),
{
}

/// A configuration as a value.
pub ghost struct ConfigView {
    pub current: Option<Seq<char>>,
    pub servers: Seq<ServerConfig>,
    pub legacy: Option<LegacyServerConfig>,
    pub renderer: RendererPref,
    pub last_chromecast: Option<Seq<char>>,
    pub last_upnp: Option<Seq<char>>,
    pub client: ClientInfo,
    pub replaygain: ReplayGainSettings,
    pub crossfade: CrossfadeSettings,
    pub eq_enabled: bool,
    pub bands: Seq<EqBand>,
    pub bass: i32,
    pub treble: i32,
    pub bass_cutoff: i32,
    pub treble_cutoff: i32,
}

impl View for Config {
    type V = ConfigView;

    open spec fn view(&self) -> ConfigView {
        ConfigView {
            current: self.current_name(),
            servers: self.servers@,
            legacy: self.server,
            renderer: self.renderer,
            last_chromecast: crate::text::opt_view(self.last_chromecast),
            last_upnp: crate::text::opt_view(self.last_upnp),
            client: self.client,
            replaygain: self.replaygain,
            crossfade: self.crossfade,
            eq_enabled: self.eq_enabled,
            bands: self.eq_band_settings@,
            bass: self.bass,
            treble: self.treble,
            bass_cutoff: self.bass_cutoff,
            treble_cutoff: self.treble_cutoff,
        }
    }
}

impl ConfigView {
    /// Where the active server stands in the list.
    pub open spec fn current_index(self) -> Option<int> {
        match self.current {
            Some(n) => server_index(self.servers, n, 0),
            None => None,
        }
    }

    /// The position that follows the active server's, round the list.
    pub open spec fn next_index(self) -> int {
        let cur = match self.current_index() {
            Some(i) => i,
            None => 0,
        };
        (cur + 1) % (self.servers.len() as int)
    }
}

impl ServerError {
    /// Why a change of the server list is refused, in words.
    pub open spec fn words(self, name: Seq<char>) -> Seq<char> {
        match self {
            ServerError::NotFound => "no server named `"@ + name + "`"@,
            ServerError::NoneActive =>
                "no active server — run `fin login <url>` or `fin server switch <name>`"@,
            ServerError::NameTaken => "a server named `"@ + name + "` already exists"@,
        }
    }

    /// Why a change of the server list is refused, in words.
    pub fn text(&self, name: &str) -> (r: String)
        ensures
            r@ == self.words(name@),
    {
        match self {
            ServerError::NotFound => {
                let mut r: String = "no server named `".to_owned();
                r.push_str(name);
                r.push_str("`");
                r
            },
            ServerError::NoneActive =>
                "no active server — run `fin login <url>` or `fin server switch <name>`".to_owned(),
            ServerError::NameTaken => {
                let mut r: String = "a server named `".to_owned();
                r.push_str(name);
                r.push_str("` already exists");
                r
            },
        }
    }
}

impl Config {
    /// Where the active server stands in the list.
    pub fn current_position(&self) -> (r: Option<usize>)
        ensures
            match r {
                Some(i) => self.current_index() == Some(i as int) && i < self.servers@.len(),
                None => self.current_index() is None,
            },
    {
        match &self.current_server {
            None => None,
            Some(name) => find_index(&self.servers, name.as_str()),
        }
    }
}

proof fn lemma_host_end(h: Seq<char>, rest: Seq<char>, from: int)
    requires
        0 <= from <= h.len(),
        forall|i: int| 0 <= i < h.len() ==> #[trigger] h[i] != '/' && h[i] != ':',
        rest.len() == 0 || rest[0] == '/' || rest[0] == ':',
    ensures
        host_end(h + rest, from) == h.len(),
    decreases h.len() - from,
{
    if from < h.len() {
        assert((h + rest)[from] == h[from]);
        lemma_host_end(h, rest, from + 1);
    } else if rest.len() > 0 {
        assert((h + rest)[from] == rest[0]);
    }
}

/// A server is named after its host, whatever the scheme before it and the port
/// or the path behind it; where there is no host it has a name all the same.
pub proof fn lemma_named_after_host(host: Seq<char>, rest: Seq<char>)
    requires
        forall|i: int| 0 <= i < host.len() ==> #[trigger] host[i] != '/' && host[i] != ':',
        rest.len() == 0 || rest[0] == '/' || rest[0] == ':',
        !crate::text::starts_with(host + rest, "https://"@),
        !crate::text::starts_with(host + rest, "http://"@),
    ensures
        host.len() > 0 ==> server_name("https://"@ + (host + rest)) == host,
        host.len() > 0 ==> server_name("http://"@ + (host + rest)) == host,
        host.len() > 0 ==> server_name(host + rest) == host,
        server_name(Seq::empty()) == "server"@,
{
    reveal_strlit("https://");
    reveal_strlit("http://");
    let t = host + rest;
    let s = "https://"@;
    let p = "http://"@;
    assert((s + t).subrange(0, 8) =~= s);
    assert((s + t).skip(8) =~= t);
    assert((p + t).subrange(0, 7) =~= p);
    assert((p + t).skip(7) =~= t);
    assert(crate::text::starts_with(s + t, s));
    assert(crate::text::starts_with(p + t, p));
    assert(!crate::text::starts_with(p + t, s)) by {
        if crate::text::starts_with(p + t, s) {
            assert((p + t).subrange(0, 8)[4] == s[4]);
            assert((p + t)[4] == p[4]);
        }
    }
    assert(strip_all(t, s) == t);
    assert(strip_all(t, p) == t);
    assert(strip_all(s + t, s) == t);
    assert(strip_all(p + t, s) == p + t);
    assert(strip_all(p + t, p) == t);
    lemma_host_end(host, rest, 0);
    assert(t.take(host.len() as int) =~= host);
    let none = Seq::<char>::empty();
    assert(strip_all(none, s) == none);
    assert(strip_all(none, p) == none);
    assert(none.take(0).len() == 0);
}

/// The cycles begin with what is off: then the track, then the album; and a
/// plain fade, then a mixed one. The modes have names of their own.
pub proof fn lemma_mode_names()
    ensures
        ReplayGainMode::Off.successor() == ReplayGainMode::Track,
        ReplayGainMode::Track.successor() == ReplayGainMode::Album,
        CrossfadeMode::Off.successor() == CrossfadeMode::Crossfade,
        CrossfadeMode::Crossfade.successor() == CrossfadeMode::Mixed,
        ReplayGainMode::Off.name() == "off"@,
        ReplayGainMode::Track.name() == "track"@,
        ReplayGainMode::Album.name() == "album"@,
        CrossfadeMode::Off.name() == "off"@,
        CrossfadeMode::Crossfade.name() == "crossfade"@,
        CrossfadeMode::Mixed.name() == "mixed"@,
        RendererPref::Mpv.name() == "mpv"@,
        RendererPref::Chromecast.name() == "chromecast"@,
        RendererPref::Upnp.name() == "upnp"@,
{
}

/// The bands lie an octave apart, from the lowest to the highest; without a
/// change none of them is raised or lowered.
pub proof fn lemma_octaves(i: int)
    requires
        0 <= i < 10,
    ensures
        octave_hz(0) == 32,
        octave_hz(5) == 1000,
        octave_hz(9) == 16000,
        i < 9 ==> 2 * octave_hz(i) - 1 <= octave_hz(i + 1) <= 2 * octave_hz(i),
        flat_bands().len() == 10,
        flat_bands()[i].gain == 0,
        flat_bands()[i].cutoff == octave_hz(i),
        flat_bands()[i].q == 70,
{
}

/// The next overlap is the shortest of four that is longer, or the shortest of
/// all.
pub proof fn lemma_next_overlap(ms: nat)
    ensures
        next_overlap(ms) == 3000 || next_overlap(ms) == 5000 || next_overlap(ms) == 8000
            || next_overlap(ms) == 12000,
        next_overlap(3000) == 5000,
        next_overlap(5000) == 8000,
        next_overlap(8000) == 12000,
        next_overlap(12000) == 3000,
        ms < 2999 ==> next_overlap(ms) == 3000,
        ms >= 11999 ==> next_overlap(ms) == 3000,
        2999 <= ms < 11999 ==> next_overlap(ms) > ms,
{
}

/// What lies between two limits is kept, and what does not is brought to the
/// nearer one.
pub proof fn lemma_clamped(v: int, lo: int, hi: int)
    requires
        lo <= hi,
    ensures
        lo <= clamped(v, lo, hi) <= hi,
        lo <= v <= hi ==> clamped(v, lo, hi) == v,
        v < lo ==> clamped(v, lo, hi) == lo,
        v > hi ==> clamped(v, lo, hi) == hi,
{
}

/// No server of the name is left, and every other one is.
pub proof fn lemma_without_name(servers: Seq<ServerConfig>, name: Seq<char>, i: int)
    ensures
        forall|k: int|
            0 <= k < without_name(servers, name).len() ==> (#[trigger] without_name(
                servers,
                name,
            )[k]).name@ != name,
        0 <= i < servers.len() && servers[i].name@ != name ==> without_name(servers, name).contains(
            servers[i],
        ),
        without_name(servers, name).len() <= servers.len(),
    decreases servers.len(),
{
    reveal(Seq::filter);
    if servers.len() > 0 {
        let rest = servers.drop_last();
        lemma_without_name(rest, name, i);
        let kept = without_name(servers, name);
        let front = without_name(rest, name);
        if 0 <= i < servers.len() && servers[i].name@ != name {
            if i < rest.len() {
                assert(rest[i] == servers[i]);
                let k = choose|k: int| 0 <= k < front.len() && front[k] == servers[i];
                assert(kept[k] == servers[i]);
            } else {
                assert(servers.last() == servers[i]);
                assert(kept.last() == servers[i]);
            }
        }
    }
}

/// The server after the active one is the next of the list, and after the last
/// one the first.
pub proof fn lemma_next_server(c: ConfigView, i: int)
    requires
        c.current_index() == Some(i),
        0 <= i < c.servers.len(),
    ensures
        i + 1 < c.servers.len() ==> c.next_index() == i + 1,
        i + 1 == c.servers.len() ==> c.next_index() == 0,
{
    let n = c.servers.len() as int;
    if i + 1 < n {
        vstd::arithmetic::div_mod::lemma_small_mod((i + 1) as nat, n as nat);
    } else {
        vstd::arithmetic::div_mod::lemma_mod_self_0(n);
    }
}

/// The active server is the first one of the name that is written down.
pub proof fn lemma_active_server(c: Config)
    ensures
        c.current_name() is None ==> c.current_index() is None,
        c.current_index() is Some ==> 0 <= c.current_index()->0 < c.servers@.len()
            && c.current_name() == Some(c.servers@[c.current_index()->0].name@),
        c.consistent() && c.servers@.len() > 0 ==> c.current_index() is Some,
        c@.current_index() == c.current_index(),
        c@.next_index() == c.next_index(),
{
    if let Some(n) = c.current_name() {
        lemma_server_index(c.servers@, n, 0);
    }
}

/// A server of an old file is taken over whole: its address, user, token and
/// device, under the name of its host; and it is the active one.
pub proof fn lemma_old_file_taken(before: Config, after: Config)
    requires
        before.migrates_to(after),
        before.server is Some,
        before.servers@.len() == 0,
        before.current_name() is None,
    ensures
        after.servers@.len() == 1,
        after.servers@[0].url == before.server->0.url,
        after.servers@[0].user_id == before.server->0.user_id,
        after.servers@[0].user_name == before.server->0.user_name,
        after.servers@[0].access_token == before.server->0.access_token,
        after.servers@[0].device_id == before.server->0.device_id,
        after.servers@[0].server_kind == ServerKind::Jellyfin,
        after.servers@[0].name@ == server_name(before.server->0.url@),
        after.current_name() == Some(after.servers@[0].name@),
        after.server is None,
        after.same_settings(before),
{
}

/// Why a change is refused names the server where one is meant.
pub proof fn lemma_refusals(name: Seq<char>)
    ensures
        ServerError::NotFound.words(name) == "no server named `"@ + name + "`"@,
        ServerError::NameTaken.words(name) == "a server named `"@ + name + "` already exists"@,
{
}

} // verus!
