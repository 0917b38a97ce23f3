//! XML and DIDL-Lite, as far as a UPnP renderer needs them: the documents are
//! small and predictable, so they are searched as text.

use vstd::prelude::*;
use vstd::slice::slice_subrange;

use crate::escape::percent_decode;
pub use crate::num::{fmt_hms, parse_hms};
use crate::text::{
    begins, chars, cut_end_char, eq_chars, find, find_after_last, find_char, from_chars, has,
    match_at, split_at_char, str_eq, to_lower, trim,
};

verus! {

/// How a character is written in XML text.
pub open spec fn entity(c: char) -> Seq<char> {
    if c == '&' {
        seq!['&', 'a', 'm', 'p', ';']
    } else if c == '<' {
        seq!['&', 'l', 't', ';']
    } else if c == '>' {
        seq!['&', 'g', 't', ';']
    } else if c == '"' {
        seq!['&', 'q', 'u', 'o', 't', ';']
    } else if c == '\'' {
        seq!['&', 'a', 'p', 'o', 's', ';']
    } else {
        seq![c]
    }
}

/// A text as it is written in XML.
pub open spec fn encoded(s: Seq<char>) -> Seq<char>
    decreases s.len(),
{
    if s.len() == 0 {
        Seq::empty()
    } else {
        encoded(s.drop_last()) + entity(s.last())
    }
}

/// The entity at the front of a text: the character and the length.
pub open spec fn leading_entity(s: Seq<char>) -> Option<(char, int)> {
    if crate::text::starts_with(s, entity('<')) {
        Some(('<', 4))
    } else if crate::text::starts_with(s, entity('>')) {
        Some(('>', 4))
    } else if crate::text::starts_with(s, entity('"')) {
        Some(('"', 6))
    } else if crate::text::starts_with(s, entity('\'')) {
        Some(('\'', 6))
    } else if crate::text::starts_with(s, entity('&')) {
        Some(('&', 5))
    } else {
        None
    }
}

/// An XML text with its five named entities replaced, each once: what an
/// entity gives is not looked at again.
pub open spec fn decoded(s: Seq<char>) -> Seq<char>
    decreases s.len(),
{
    if s.len() == 0 {
        s
    } else {
        match leading_entity(s) {
            Some((c, n)) => seq![c] + decoded(s.skip(n)),
            None => seq![s[0]] + decoded(s.skip(1)),
        }
    }
}

fn push_entity(out: &mut String, c: char)
    ensures
        final(out)@ == old(out)@ + entity(c),
{
    proof {
        reveal_strlit("&amp;");
        reveal_strlit("&lt;");
        reveal_strlit("&gt;");
        reveal_strlit("&quot;");
        reveal_strlit("&apos;");
        assert("&amp;"@ =~= entity('&'));
        assert("&lt;"@ =~= entity('<'));
        assert("&gt;"@ =~= entity('>'));
        assert("&quot;"@ =~= entity('"'));
        assert("&apos;"@ =~= entity('\''));
    }
    if c == '&' {
        out.push_str("&amp;");
    } else if c == '<' {
        out.push_str("&lt;");
    } else if c == '>' {
        out.push_str("&gt;");
    } else if c == '"' {
        out.push_str("&quot;");
    } else if c == '\'' {
        out.push_str("&apos;");
    } else {
        out.push(c);
        proof {
            assert(out@ =~= old(out)@ + entity(c));
        }
    }
}

/// Writes a text so that XML takes it literally.
pub fn encode_entities(s: &str) -> (r: String)
    ensures
        r@ == encoded(s@),
{
    let cs: Vec<char> = chars(s);
    let mut out: String = String::new();
    let mut i: usize = 0;
    proof {
        assert(s@.take(0).len() == 0);
    }
    while i < cs.len()
        invariant
            i <= cs@.len(),
            cs@ == s@,
            out@ == encoded(s@.take(i as int)),
        decreases cs@.len() - i,
    {
        proof {
            assert(s@.take(i as int + 1).drop_last() =~= s@.take(i as int));
        }
        push_entity(&mut out, cs[i]);
        i += 1;
    }
    proof {
        assert(s@.take(i as int) =~= s@);
    }
    out
}

pub(crate) fn entity_here(s: &[char], i: usize) -> (r: Option<(char, usize)>)
    requires
        i <= s@.len(),
    ensures
        match r {
            Some((c, n)) => leading_entity(s@.skip(i as int)) == Some((c, n as int)) && 0 < n
                && i + n <= s@.len(),
            None => leading_entity(s@.skip(i as int)) is None,
        },
{
    let ghost t = s@.skip(i as int);
    proof {
        assert forall|p: Seq<char>| #[trigger]
            crate::text::matches_at(t, p, 0) == crate::text::matches_at(s@, p, i as int) by {
            if p.len() <= t.len() {
                assert(t.subrange(0, p.len() as int) =~= s@.subrange(i as int, i + p.len()));
            }
        }
    }
    let lt: [char; 4] = ['&', 'l', 't', ';'];
    let gt: [char; 4] = ['&', 'g', 't', ';'];
    let quot: [char; 6] = ['&', 'q', 'u', 'o', 't', ';'];
    let apos: [char; 6] = ['&', 'a', 'p', 'o', 's', ';'];
    let amp: [char; 5] = ['&', 'a', 'm', 'p', ';'];
    proof {
        assert(lt@ =~= entity('<'));
        assert(gt@ =~= entity('>'));
        assert(quot@ =~= entity('"'));
        assert(apos@ =~= entity('\''));
        assert(amp@ =~= entity('&'));
    }
    if match_at(s, &lt, i) {
        Some(('<', 4))
    } else if match_at(s, &gt, i) {
        Some(('>', 4))
    } else if match_at(s, &quot, i) {
        Some(('"', 6))
    } else if match_at(s, &apos, i) {
        Some(('\'', 6))
    } else if match_at(s, &amp, i) {
        Some(('&', 5))
    } else {
        None
    }
}

/// Replaces the entities in a run of XML text.
pub fn decode_chars(s: &[char]) -> (r: String)
    ensures
        r@ == decoded(s@),
{
    let mut out: String = String::new();
    let mut i: usize = 0;
    proof {
        assert(s@.skip(0) =~= s@);
        assert(out@ + decoded(s@) =~= decoded(s@));
    }
    while i < s.len()
        invariant
            i <= s@.len(),
            out@ + decoded(s@.skip(i as int)) == decoded(s@),
        decreases s@.len() - i,
    {
        let ghost rest = s@.skip(i as int);
        let ghost before = out@;
        match entity_here(s, i) {
            Some((c, n)) => {
                out.push(c);
                proof {
                    assert(rest.skip(n as int) =~= s@.skip(i + n));
                    assert(out@ + decoded(rest.skip(n as int)) =~= before + (seq![c] + decoded(
                        rest.skip(n as int),
                    )));
                }
                i += n;
            },
            None => {
                out.push(s[i]);
                proof {
                    assert(rest.skip(1) =~= s@.skip(i + 1));
                    assert(out@ + decoded(rest.skip(1)) =~= before + (seq![rest[0]] + decoded(
                        rest.skip(1),
                    )));
                }
                i += 1;
            },
        }
    }
    proof {
        assert(decoded(s@.skip(i as int)).len() == 0);
        assert(out@ =~= decoded(s@));
    }
    out
}

/// Replaces the five named entities of an XML text.
pub fn decode_entities(s: &str) -> (r: String)
    ensures
        r@ == decoded(s@),
{
    let cs: Vec<char> = chars(s);
    decode_chars(cs.as_slice())
}

pub(crate) proof fn lemma_encoded_front(c: char, t: Seq<char>)
    ensures
        encoded(seq![c] + t) == entity(c) + encoded(t),
    decreases t.len(),
{
    let s = seq![c] + t;
    if t.len() == 0 {
        assert(s.drop_last() =~= t);
        assert(s.last() == c);
        assert(encoded(s) =~= entity(c) + encoded(t));
    } else {
        assert(s.drop_last() =~= seq![c] + t.drop_last());
        assert(s.last() == t.last());
        lemma_encoded_front(c, t.drop_last());
        assert(encoded(s) =~= entity(c) + encoded(t));
    }
}

pub(crate) proof fn lemma_leading_entity(c: char, t: Seq<char>)
    ensures
        match leading_entity(entity(c) + t) {
            Some((d, n)) => d == c && (entity(c) + t).skip(n) == t,
            None => entity(c) == seq![c],
        },
{
    let s = entity(c) + t;
    assert forall|p: Seq<char>| #[trigger] crate::text::matches_at(s, p, 0) && p.len() > 0 implies s[0]
        == p[0] && (p.len() > 1 ==> s[1] == p[1]) && (p.len() > 2 ==> s[2] == p[2]) by {
        assert(s.subrange(0, p.len() as int)[0] == p[0]);
        if p.len() > 1 {
            assert(s.subrange(0, p.len() as int)[1] == p[1]);
        }
        if p.len() > 2 {
            assert(s.subrange(0, p.len() as int)[2] == p[2]);
        }
    }
    assert(s.subrange(0, entity(c).len() as int) =~= entity(c));
    assert(s.skip(entity(c).len() as int) =~= t);
}

/// Decoding undoes encoding: every text comes back as it was.
pub proof fn lemma_decode_encode(s: Seq<char>)
    ensures
        decoded(encoded(s)) == s,
    decreases s.len(),
{
    if s.len() > 0 {
        let c = s[0];
        let t = s.skip(1);
        assert(s =~= seq![c] + t);
        lemma_encoded_front(c, t);
        lemma_leading_entity(c, encoded(t));
        lemma_decode_encode(t);
        let e = encoded(s);
        assert(e == entity(c) + encoded(t));
        if leading_entity(e) is None {
            assert(e.skip(1) =~= encoded(t));
            assert(e[0] == c);
        }
    }
}

/// The characters that end a tag's name.
pub open spec fn ends_name(c: char) -> bool {
    c == ' ' || c == '>' || c == '/' || c == '\t' || c == '\n'
}

/// Where the tag name that begins at `from` ends.
pub open spec fn name_end(s: Seq<char>, from: int) -> int
    decreases s.len() - from,
{
    if from < 0 || from >= s.len() || ends_name(s[from]) {
        from
    } else {
        name_end(s, from + 1)
    }
}

/// A name ends behind its start and within the text.
pub proof fn lemma_name_end(s: Seq<char>, from: int)
    requires
        0 <= from <= s.len(),
    ensures
        from <= name_end(s, from) <= s.len(),
    decreases s.len() - from,
{
    if from < s.len() && !ends_name(s[from]) {
        lemma_name_end(s, from + 1);
    }
}

/// A tag name without its namespace prefix.
pub open spec fn local_part(name: Seq<char>) -> Seq<char> {
    name.skip(crate::text::after_last(name, ':', name.len() as int))
}

/// The text of the first element at or behind `cursor` whose local name is
/// `needle`. The tags are looked up in `low`, the text is taken from `xml`,
/// which has the same length. An element that closes itself is empty; one that
/// is never closed gives nothing.
pub open spec fn element_text(
    xml: Seq<char>,
    low: Seq<char>,
    needle: Seq<char>,
    cursor: int,
) -> Option<Seq<char>>
    decreases low.len() - cursor,
{
    if cursor < 0 || cursor >= low.len() {
        None
    } else {
        match crate::text::index_of(low, '<', cursor) {
            None => None,
            Some(lt) => {
                let abs = lt + 1;
                proof {
                    crate::text::lemma_index_of(low, '<', cursor);
                    lemma_name_end(low, abs);
                }
                if abs < low.len() && (low[abs] == '/' || low[abs] == '!' || low[abs] == '?') {
                    element_text(xml, low, needle, abs)
                } else {
                    let end = name_end(low, abs);
                    let name = low.subrange(abs, end);
                    if local_part(name) == needle {
                        match crate::text::index_of(low, '>', abs) {
                            None => None,
                            Some(gt) => if gt > abs && low[gt - 1] == '/' {
                                Some(Seq::empty())
                            } else {
                                match crate::text::find_from(low, "</"@ + name + ">"@, gt + 1) {
                                    None => None,
                                    Some(close) => Some(
                                        decoded(
                                            crate::text::trimmed(xml.subrange(gt + 1, close)),
                                        ),
                                    ),
                                }
                            },
                        }
                    } else {
                        element_text(xml, low, needle, end)
                    }
                }
            },
        }
    }
}

/// The text of the first element with this local name, upper and lower case
/// alike, decoded and without white space round it.
pub open spec fn text_of_tag(xml: Seq<char>, local_name: Seq<char>) -> Option<Seq<char>> {
    element_text(xml, crate::text::lower(xml), crate::text::lower(local_name), 0)
}

pub(crate) fn find_name_end(s: &[char], from: usize) -> (r: usize)
    requires
        from <= s@.len(),
    ensures
        r == name_end(s@, from as int),
        from <= r <= s@.len(),
{
    let mut i: usize = from;
    while i < s.len() && !(s[i] == ' ' || s[i] == '>' || s[i] == '/' || s[i] == '\t' || s[i]
        == '\n')
        invariant
            from <= i <= s@.len(),
            name_end(s@, from as int) == name_end(s@, i as int),
        decreases s@.len() - i,
    {
        i += 1;
    }
    i
}

/// The close tag `</name>`.
pub(crate) fn close_tag(name: &[char]) -> (r: Vec<char>)
    ensures
        r@ == "</"@ + name@ + ">"@,
{
    let mut out: String = "</".to_owned();
    let n: String = from_chars(name);
    out.push_str(n.as_str());
    out.push_str(">");
    chars(out.as_str())
}

/// Extracts the text of the first `<tag>…</tag>` pair, matching on the local
/// name only (namespace prefixes vary between control points). The text comes
/// back with its entities decoded.
pub fn tag_text(xml: &str, local_name: &str) -> (r: Option<String>)
    ensures
        crate::text::opt_view(r) == text_of_tag(xml@, local_name@),
{
    let cs: Vec<char> = chars(xml);
    let name_chars: Vec<char> = chars(local_name);
    let low: Vec<char> = to_lower(cs.as_slice());
    let needle: Vec<char> = to_lower(name_chars.as_slice());
    let mut cursor: usize = 0;
    while cursor < low.len()
        invariant
            cs@ == xml@,
            low@ == crate::text::lower(xml@),
            low@.len() == xml@.len(),
            needle@ == crate::text::lower(local_name@),
            cursor <= low@.len(),
            text_of_tag(xml@, local_name@) == element_text(xml@, low@, needle@, cursor as int),
        decreases low@.len() - cursor,
    {
        let lt: usize = match find_char(low.as_slice(), '<', cursor) {
            Some(i) => i,
            None => {
                return None;
            },
        };
        let abs: usize = lt + 1;
        if abs < low.len() && (low[abs] == '/' || low[abs] == '!' || low[abs] == '?') {
            cursor = abs;
        } else {
            let end: usize = find_name_end(low.as_slice(), abs);
            let name: &[char] = slice_subrange(low.as_slice(), abs, end);
            let colon: usize = find_after_last(name, ':');
            let local: &[char] = slice_subrange(name, colon, name.len());
            proof {
                assert(local@ =~= local_part(name@));
            }
            if eq_chars(local, needle.as_slice()) {
                let gt: usize = match find_char(low.as_slice(), '>', abs) {
                    Some(i) => i,
                    None => {
                        return None;
                    },
                };
                if gt > abs && low[gt - 1] == '/' {
                    return Some(String::new());
                }
                let close: Vec<char> = close_tag(name);
                match find(low.as_slice(), close.as_slice(), gt + 1) {
                    Some(c) => {
                        let inner: &[char] = slice_subrange(cs.as_slice(), gt + 1, c);
                        return Some(decode_chars(trim(inner)));
                    },
                    None => {
                        return None;
                    },
                }
            }
            cursor = end;
        }
    }
    None
}

/// The value of the first `name="value"` in a document, decoded.
pub open spec fn value_of_attr(xml: Seq<char>, name: Seq<char>) -> Option<Seq<char>> {
    let low = crate::text::lower(xml);
    let needle = crate::text::lower(name) + "=\""@;
    match crate::text::find_from(low, needle, 0) {
        None => None,
        Some(i) => match crate::text::index_of(low, '"', i + needle.len()) {
            None => None,
            Some(end) => Some(decoded(xml.subrange(i + needle.len(), end))),
        },
    }
}

/// First occurrence of `name="value"` anywhere in the document: good enough
/// for the two attributes that matter (`protocolInfo`, `duration`), since a
/// cast payload holds exactly one `<res>`.
pub fn attr_anywhere(xml: &str, name: &str) -> (r: Option<String>)
    ensures
        crate::text::opt_view(r) == value_of_attr(xml@, name@),
{
    let cs: Vec<char> = chars(xml);
    let name_chars: Vec<char> = chars(name);
    let low: Vec<char> = to_lower(cs.as_slice());
    let low_name: Vec<char> = to_lower(name_chars.as_slice());
    let mut needle_text: String = from_chars(low_name.as_slice());
    needle_text.push_str("=\"");
    let needle: Vec<char> = chars(needle_text.as_str());
    match find(low.as_slice(), needle.as_slice(), 0) {
        None => None,
        Some(i) => {
            assert(low.len() == low@.len());
            let start: usize = i + needle.len();
            match find_char(low.as_slice(), '"', start) {
                None => None,
                Some(end) => Some(decode_chars(slice_subrange(cs.as_slice(), start, end))),
            }
        },
    }
}

/// What could be read from a control point's DIDL-Lite metadata.
#[derive(Debug)]
pub struct CastMeta {
    pub title: Option<String>,
    pub artist: Option<String>,
    pub upnp_class: Option<String>,
    pub album_art: Option<String>,
    pub duration_secs: Option<u64>,
    /// MIME from `<res protocolInfo="http-get:*:MIME:*">`.
    pub mime: Option<String>,
}

/// The texts and the number that a `CastMeta` holds.
pub ghost struct MetaView {
    pub title: Option<Seq<char>>,
    pub artist: Option<Seq<char>>,
    pub upnp_class: Option<Seq<char>>,
    pub album_art: Option<Seq<char>>,
    pub duration_secs: Option<nat>,
    pub mime: Option<Seq<char>>,
}

impl View for CastMeta {
    type V = MetaView;

    open spec fn view(&self) -> MetaView {
        MetaView {
            title: crate::text::opt_view(self.title),
            artist: crate::text::opt_view(self.artist),
            upnp_class: crate::text::opt_view(self.upnp_class),
            album_art: crate::text::opt_view(self.album_art),
            duration_secs: match self.duration_secs {
                Some(n) => Some(n as nat),
                None => None,
            },
            mime: crate::text::opt_view(self.mime),
        }
    }
}

impl Default for CastMeta {
    fn default() -> (r: Self)
        ensures
            r.title is None,
            r.artist is None,
            r.upnp_class is None,
            r.album_art is None,
            r.duration_secs is None,
            r.mime is None,
    {
        CastMeta {
            title: None,
            artist: None,
            upnp_class: None,
            album_art: None,
            duration_secs: None,
            mime: None,
        }
    }
}

/// A text that is there and not empty.
pub open spec fn nonempty(o: Option<Seq<char>>) -> Option<Seq<char>> {
    match o {
        Some(t) => if t.len() > 0 {
            Some(t)
        } else {
            None
        },
        None => None,
    }
}

/// The MIME type in a `protocolInfo` attribute: its third field, unless that
/// is empty or a star.
pub open spec fn protocol_mime(didl: Seq<char>) -> Option<Seq<char>> {
    match value_of_attr(didl, "protocolInfo"@) {
        None => None,
        Some(p) => {
            let fields = crate::text::split(p, ':');
            if fields.len() < 3 {
                None
            } else {
                let m = crate::text::trimmed(fields[2]);
                if m.len() == 0 || m == "*"@ {
                    None
                } else {
                    Some(m)
                }
            }
        },
    }
}

/// The whole seconds of a `duration` attribute.
pub open spec fn attr_duration(didl: Seq<char>) -> Option<nat> {
    match value_of_attr(didl, "duration"@) {
        None => None,
        Some(d) => match crate::num::hms_us(d) {
            Some(us) => Some(us / 1_000_000),
            None => None,
        },
    }
}

/// What a DIDL-Lite document says of the item it describes.
pub open spec fn didl_meta(didl: Seq<char>) -> MetaView {
    MetaView {
        title: nonempty(text_of_tag(didl, "title"@)),
        artist: nonempty(
            match text_of_tag(didl, "artist"@) {
                Some(a) => Some(a),
                None => text_of_tag(didl, "creator"@),
            },
        ),
        upnp_class: nonempty(text_of_tag(didl, "class"@)),
        album_art: nonempty(text_of_tag(didl, "albumArtURI"@)),
        duration_secs: attr_duration(didl),
        mime: protocol_mime(didl),
    }
}

fn filter_empty(o: Option<String>) -> (r: Option<String>)
    ensures
        crate::text::opt_view(r) == nonempty(crate::text::opt_view(o)),
{
    match o {
        Some(s) => if s.as_str().is_empty() {
            None
        } else {
            Some(s)
        },
        None => None,
    }
}

fn mime_of(didl: &str) -> (r: Option<String>)
    ensures
        crate::text::opt_view(r) == protocol_mime(didl@),
{
    match attr_anywhere(didl, "protocolInfo") {
        None => None,
        Some(p) => {
            let cs: Vec<char> = chars(p.as_str());
            let fields: Vec<Vec<char>> = split_at_char(cs.as_slice(), ':');
            proof {
                assert(crate::text::views(fields@).len() == fields@.len());
            }
            if fields.len() < 3 {
                return None;
            }
            let m: &[char] = trim(fields[2].as_slice());
            let star: Vec<char> = chars("*");
            if m.len() == 0 || eq_chars(m, star.as_slice()) {
                None
            } else {
                Some(from_chars(m))
            }
        },
    }
}

fn duration_of(didl: &str) -> (r: Option<u64>)
    ensures
        match r {
            Some(n) => attr_duration(didl@) == Some(n as nat),
            None => attr_duration(didl@) is None,
        },
{
    match attr_anywhere(didl, "duration") {
        None => None,
        Some(d) => match parse_hms(d.as_str()) {
            Some(us) => Some(us / 1_000_000),
            None => None,
        },
    }
}

/// Reads a DIDL-Lite document.
pub fn parse_didl(didl: &str) -> (r: CastMeta)
    ensures
        r@ == didl_meta(didl@),
{
    let artist: Option<String> = match tag_text(didl, "artist") {
        Some(a) => Some(a),
        None => tag_text(didl, "creator"),
    };
    CastMeta {
        title: filter_empty(tag_text(didl, "title")),
        artist: filter_empty(artist),
        upnp_class: filter_empty(tag_text(didl, "class")),
        album_art: filter_empty(tag_text(didl, "albumArtURI")),
        duration_secs: duration_of(didl),
        mime: mime_of(didl),
    }
}

/// A URL up to its query or fragment.
pub open spec fn without_query(uri: Seq<char>) -> Seq<char> {
    uri.take(query_start(uri, 0))
}

/// Where the query or the fragment begins, or the length.
pub open spec fn query_start(uri: Seq<char>, from: int) -> int
    decreases uri.len() - from,
{
    if from < 0 || from >= uri.len() || uri[from] == '?' || uri[from] == '#' {
        from
    } else {
        query_start(uri, from + 1)
    }
}

/// What stands behind the last slash.
pub open spec fn last_segment(path: Seq<char>) -> Seq<char> {
    path.skip(crate::text::after_last(path, '/', path.len() as int))
}

/// The lower-cased extension of a URL's last path segment: what stands behind
/// its last dot, if that is one to five bytes long.
pub open spec fn extension_of(uri: Seq<char>) -> Option<Seq<char>> {
    let seg = last_segment(without_query(uri));
    let dot = crate::text::after_last(seg, '.', seg.len() as int);
    let ext = seg.skip(dot);
    if dot == 0 || ext.len() == 0 || vstd::utf8::encode_utf8(ext).len() > 5 {
        None
    } else {
        Some(crate::text::lower(ext))
    }
}

/// Cuts the query and the fragment off a URL.
pub fn cut_query<'a>(uri: &'a [char]) -> (r: &'a [char])
    ensures
        r@ == without_query(uri@),
{
    let mut i: usize = 0;
    while i < uri.len() && uri[i] != '?' && uri[i] != '#'
        invariant
            i <= uri@.len(),
            query_start(uri@, 0) == query_start(uri@, i as int),
        decreases uri@.len() - i,
    {
        i += 1;
    }
    let r: &[char] = slice_subrange(uri, 0, i);
    proof {
        assert(r@ =~= without_query(uri@));
    }
    r
}

fn segment<'a>(path: &'a [char]) -> (r: &'a [char])
    ensures
        r@ == last_segment(path@),
{
    let i: usize = find_after_last(path, '/');
    let r: &[char] = slice_subrange(path, i, path.len());
    proof {
        assert(r@ =~= last_segment(path@));
    }
    r
}

/// Lower-cased extension of the URL path, query string stripped.
pub fn extension(uri: &str) -> (r: Option<String>)
    ensures
        crate::text::opt_view(r) == extension_of(uri@),
{
    let cs: Vec<char> = chars(uri);
    let seg: &[char] = segment(cut_query(cs.as_slice()));
    let dot: usize = find_after_last(seg, '.');
    let ext: &[char] = slice_subrange(seg, dot, seg.len());
    proof {
        assert(ext@ =~= seg@.skip(dot as int));
    }
    if dot == 0 || ext.len() == 0 {
        return None;
    }
    let plain: String = from_chars(ext);
    if plain.as_str().as_bytes().len() > 5 {
        return None;
    }
    let low: Vec<char> = to_lower(ext);
    Some(from_chars(low.as_slice()))
}

/// The extensions of video files.
pub open spec fn video_extension(e: Seq<char>) -> bool {
    e == "mp4"@ || e == "m4v"@ || e == "mkv"@ || e == "webm"@ || e == "avi"@ || e == "mov"@ || e
        == "ts"@ || e == "mpg"@ || e == "mpeg"@ || e == "wmv"@ || e == "m3u8"@ || e == "flv"@
}

/// Whether a cast item is a video: by its class, else by its MIME type, else
/// by the extension of its URL.
pub open spec fn is_video_item(meta: MetaView, uri: Seq<char>) -> bool {
    if meta.upnp_class is Some && crate::text::contains(meta.upnp_class->0, "videoItem"@) {
        true
    } else if meta.upnp_class is Some && (crate::text::contains(meta.upnp_class->0, "audioItem"@)
        || crate::text::contains(meta.upnp_class->0, "musicTrack"@)) {
        false
    } else if meta.mime is Some && crate::text::starts_with(meta.mime->0, "video/"@) {
        true
    } else if meta.mime is Some && crate::text::starts_with(meta.mime->0, "audio/"@) {
        false
    } else {
        extension_of(uri) is Some && video_extension(extension_of(uri)->0)
    }
}

fn has_video_extension(e: &str) -> (r: bool)
    ensures
        r == video_extension(e@),
{
    str_eq(e, "mp4") || str_eq(e, "m4v") || str_eq(e, "mkv") || str_eq(e, "webm") || str_eq(e, "avi")
        || str_eq(e, "mov") || str_eq(e, "ts") || str_eq(e, "mpg") || str_eq(e, "mpeg") || str_eq(
        e,
        "wmv",
    ) || str_eq(e, "m3u8") || str_eq(e, "flv")
}

/// Audio or video decides the whole path downstream, so every signal is
/// checked in the order of its confidence: the DIDL class, then the MIME type,
/// then the URL extension. What is unknown counts as audio.
pub fn is_video(meta: &CastMeta, uri: &str) -> (r: bool)
    ensures
        r == is_video_item(meta@, uri@),
{
    if let Some(class) = &meta.upnp_class {
        if has(class.as_str(), "videoItem") {
            return true;
        }
        if has(class.as_str(), "audioItem") || has(class.as_str(), "musicTrack") {
            return false;
        }
    }
    if let Some(mime) = &meta.mime {
        if begins(mime.as_str(), "video/") {
            return true;
        }
        if begins(mime.as_str(), "audio/") {
            return false;
        }
    }
    match extension(uri) {
        Some(e) => has_video_extension(e.as_str()),
        None => false,
    }
}

/// The MIME type that an extension stands for.
pub open spec fn type_of_extension(e: Seq<char>, video: bool) -> Seq<char> {
    if e == "mp3"@ {
        "audio/mpeg"@
    } else if e == "flac"@ {
        "audio/flac"@
    } else if e == "ogg"@ || e == "oga"@ {
        "audio/ogg"@
    } else if e == "opus"@ {
        "audio/opus"@
    } else if e == "m4a"@ || e == "m4b"@ {
        "audio/mp4"@
    } else if e == "aac"@ {
        "audio/aac"@
    } else if e == "wav"@ {
        "audio/wav"@
    } else if e == "aif"@ || e == "aiff"@ {
        "audio/aiff"@
    } else if e == "wma"@ {
        "audio/x-ms-wma"@
    } else if e == "mp4"@ || e == "m4v"@ {
        "video/mp4"@
    } else if e == "mkv"@ {
        "video/x-matroska"@
    } else if e == "webm"@ {
        "video/webm"@
    } else if e == "avi"@ {
        "video/x-msvideo"@
    } else if e == "mov"@ {
        "video/quicktime"@
    } else if e == "ts"@ {
        "video/mp2t"@
    } else if e == "mpg"@ || e == "mpeg"@ {
        "video/mpeg"@
    } else if e == "wmv"@ {
        "video/x-ms-wmv"@
    } else if e == "m3u8"@ {
        "application/x-mpegURL"@
    } else if video {
        "video/mp4"@
    } else {
        "audio/mpeg"@
    }
}

/// The content type of a cast item: the MIME type it came with, else a guess
/// from the extension of its URL.
pub open spec fn item_content_type(meta: MetaView, uri: Seq<char>, video: bool) -> Seq<char> {
    if meta.mime is Some && meta.mime->0.contains('/') {
        meta.mime->0
    } else {
        let e = match extension_of(uri) {
            Some(e) => e,
            None => Seq::empty(),
        };
        type_of_extension(e, video)
    }
}

fn guess_type(e: &str, video: bool) -> (r: &'static str)
    ensures
        r@ == type_of_extension(e@, video),
{
    if str_eq(e, "mp3") {
        "audio/mpeg"
    } else if str_eq(e, "flac") {
        "audio/flac"
    } else if str_eq(e, "ogg") || str_eq(e, "oga") {
        "audio/ogg"
    } else if str_eq(e, "opus") {
        "audio/opus"
    } else if str_eq(e, "m4a") || str_eq(e, "m4b") {
        "audio/mp4"
    } else if str_eq(e, "aac") {
        "audio/aac"
    } else if str_eq(e, "wav") {
        "audio/wav"
    } else if str_eq(e, "aif") || str_eq(e, "aiff") {
        "audio/aiff"
    } else if str_eq(e, "wma") {
        "audio/x-ms-wma"
    } else if str_eq(e, "mp4") || str_eq(e, "m4v") {
        "video/mp4"
    } else if str_eq(e, "mkv") {
        "video/x-matroska"
    } else if str_eq(e, "webm") {
        "video/webm"
    } else if str_eq(e, "avi") {
        "video/x-msvideo"
    } else if str_eq(e, "mov") {
        "video/quicktime"
    } else if str_eq(e, "ts") {
        "video/mp2t"
    } else if str_eq(e, "mpg") || str_eq(e, "mpeg") {
        "video/mpeg"
    } else if str_eq(e, "wmv") {
        "video/x-ms-wmv"
    } else if str_eq(e, "m3u8") {
        "application/x-mpegURL"
    } else if video {
        "video/mp4"
    } else {
        "audio/mpeg"
    }
}

/// The content type that the player is told.
pub fn content_type(meta: &CastMeta, uri: &str, video: bool) -> (r: String)
    ensures
        r@ == item_content_type(meta@, uri@, video),
{
    if let Some(mime) = &meta.mime {
        let cs: Vec<char> = chars(mime.as_str());
        proof {
            crate::text::lemma_index_of(cs@, '/', 0);
        }
        if find_char(cs.as_slice(), '/', 0).is_some() {
            return mime.clone();
        }
    }
    match extension(uri) {
        Some(e) => guess_type(e.as_str(), video).to_owned(),
        None => {
            let e: String = String::new();
            guess_type(e.as_str(), video).to_owned()
        },
    }
}

/// The path of a URL: behind the first slash that follows `scheme://host`, or
/// all of it where there is none.
pub open spec fn path_of(url: Seq<char>) -> Seq<char> {
    match crate::text::find_from(url, "://"@, 0) {
        None => url,
        Some(i) => {
            let rest = url.skip(i + 3);
            match crate::text::index_of(rest, '/', 0) {
                Some(j) => rest.skip(j + 1),
                None => url,
            }
        },
    }
}

/// The last path segment of a URL, still escaped.
pub open spec fn title_segment(uri: Seq<char>) -> Seq<char> {
    last_segment(crate::text::trim_end_char(path_of(without_query(uri)), '/'))
}

/// The display title for an item without one: the last path segment of its
/// URL without escapes, or as it is where they give no text.
pub open spec fn uri_title(uri: Seq<char>) -> Seq<char> {
    let seg = title_segment(uri);
    let t = match crate::escape::percent_decoded(seg) {
        Some(d) => d,
        None => seg,
    };
    if t.len() == 0 {
        "UPnP stream"@
    } else {
        t
    }
}

fn path<'a>(url: &'a [char]) -> (r: &'a [char])
    ensures
        r@ == path_of(url@),
{
    let sep: Vec<char> = chars("://");
    proof {
        reveal_strlit("://");
    }
    let n: usize = url.len();
    match find(url, sep.as_slice(), 0) {
        None => url,
        Some(i) => {
            let rest: &[char] = slice_subrange(url, i + 3, n);
            proof {
                assert(rest@ =~= url@.skip(i + 3));
            }
            let m: usize = rest.len();
            match find_char(rest, '/', 0) {
                Some(j) => {
                    let r: &[char] = slice_subrange(rest, j + 1, m);
                    proof {
                        assert(r@ =~= rest@.skip(j + 1));
                    }
                    r
                },
                None => url,
            }
        },
    }
}

/// Fallback display title: the last URL path segment, percent-decoded.
pub fn title_from_uri(uri: &str) -> (r: String)
    ensures
        r@ == uri_title(uri@),
{
    let cs: Vec<char> = chars(uri);
    let seg: &[char] = segment(cut_end_char(path(cut_query(cs.as_slice())), '/'));
    let plain: String = from_chars(seg);
    let title: String = match percent_decode(plain.as_str()) {
        Some(d) => d,
        None => plain,
    };
    if title.as_str().is_empty() {
        "UPnP stream".to_owned()
    } else {
        title
    }
}

/// The extensions that are told apart differ.
pub(crate) proof fn lemma_extensions_differ()
    ensures
        "m3u8"@.len() == 4 && "m3u8"@[0] == 'm',
        "webm"@.len() == 4 && "webm"@[0] == 'w',
        "opus"@.len() == 4 && "opus"@[0] == 'o',
        "flac"@.len() == 4 && "flac"@[0] == 'f',
        "mpeg"@.len() == 4 && "mpeg"@[0] == 'm' && "mpeg"@[1] == 'p',
        "m3u8"@[1] == '3',
        "aiff"@.len() == 4 && "aiff"@[0] == 'a',
        "ts"@.len() == 2,
        "mpd"@.len() == 3 && "mpd"@[0] == 'm' && "mpd"@[1] == 'p' && "mpd"@[2] == 'd',
        "mp4"@.len() == 3 && "mp4"@[0] == 'm' && "mp4"@[1] == 'p' && "mp4"@[2] == '4',
        "mp3"@.len() == 3 && "mp3"@[0] == 'm' && "mp3"@[1] == 'p' && "mp3"@[2] == '3',
        "mpg"@.len() == 3 && "mpg"@[0] == 'm' && "mpg"@[1] == 'p' && "mpg"@[2] == 'g',
        "m4v"@.len() == 3 && "m4v"@[0] == 'm' && "m4v"@[1] == '4' && "m4v"@[2] == 'v',
        "m4a"@.len() == 3 && "m4a"@[0] == 'm' && "m4a"@[1] == '4' && "m4a"@[2] == 'a',
        "m4b"@.len() == 3 && "m4b"@[0] == 'm' && "m4b"@[1] == '4' && "m4b"@[2] == 'b',
        "mkv"@.len() == 3 && "mkv"@[0] == 'm' && "mkv"@[1] == 'k' && "mkv"@[2] == 'v',
        "mov"@.len() == 3 && "mov"@[0] == 'm' && "mov"@[1] == 'o' && "mov"@[2] == 'v',
        "avi"@.len() == 3 && "avi"@[0] == 'a' && "avi"@[1] == 'v' && "avi"@[2] == 'i',
        "aac"@.len() == 3 && "aac"@[0] == 'a' && "aac"@[1] == 'a' && "aac"@[2] == 'c',
        "aif"@.len() == 3 && "aif"@[0] == 'a' && "aif"@[1] == 'i' && "aif"@[2] == 'f',
        "ogg"@.len() == 3 && "ogg"@[0] == 'o' && "ogg"@[1] == 'g' && "ogg"@[2] == 'g',
        "oga"@.len() == 3 && "oga"@[0] == 'o' && "oga"@[1] == 'g' && "oga"@[2] == 'a',
        "wav"@.len() == 3 && "wav"@[0] == 'w' && "wav"@[1] == 'a' && "wav"@[2] == 'v',
        "wma"@.len() == 3 && "wma"@[0] == 'w' && "wma"@[1] == 'm' && "wma"@[2] == 'a',
        "wmv"@.len() == 3 && "wmv"@[0] == 'w' && "wmv"@[1] == 'm' && "wmv"@[2] == 'v',
        "flv"@.len() == 3 && "flv"@[0] == 'f' && "flv"@[1] == 'l' && "flv"@[2] == 'v',
{
    reveal_strlit("m3u8");
    reveal_strlit("webm");
    reveal_strlit("opus");
    reveal_strlit("flac");
    reveal_strlit("mpeg");
    reveal_strlit("aiff");
    reveal_strlit("ts");
    reveal_strlit("mpd");
    reveal_strlit("mp4");
    reveal_strlit("mp3");
    reveal_strlit("mpg");
    reveal_strlit("m4v");
    reveal_strlit("m4a");
    reveal_strlit("m4b");
    reveal_strlit("mkv");
    reveal_strlit("mov");
    reveal_strlit("avi");
    reveal_strlit("aac");
    reveal_strlit("aif");
    reveal_strlit("ogg");
    reveal_strlit("oga");
    reveal_strlit("wav");
    reveal_strlit("wma");
    reveal_strlit("wmv");
    reveal_strlit("flv");
}

/// The content types of the extensions, each by its own name.
pub proof fn lemma_extension_types(video: bool)
    ensures
        type_of_extension("mp3"@, video) == "audio/mpeg"@,
        type_of_extension("flac"@, video) == "audio/flac"@,
        type_of_extension("ogg"@, video) == "audio/ogg"@,
        type_of_extension("oga"@, video) == "audio/ogg"@,
        type_of_extension("opus"@, video) == "audio/opus"@,
        type_of_extension("m4a"@, video) == "audio/mp4"@,
        type_of_extension("m4b"@, video) == "audio/mp4"@,
        type_of_extension("aac"@, video) == "audio/aac"@,
        type_of_extension("wav"@, video) == "audio/wav"@,
        type_of_extension("aif"@, video) == "audio/aiff"@,
        type_of_extension("aiff"@, video) == "audio/aiff"@,
        type_of_extension("wma"@, video) == "audio/x-ms-wma"@,
        type_of_extension("mp4"@, video) == "video/mp4"@,
        type_of_extension("m4v"@, video) == "video/mp4"@,
        type_of_extension("mkv"@, video) == "video/x-matroska"@,
        type_of_extension("webm"@, video) == "video/webm"@,
        type_of_extension("avi"@, video) == "video/x-msvideo"@,
        type_of_extension("mov"@, video) == "video/quicktime"@,
        type_of_extension("ts"@, video) == "video/mp2t"@,
        type_of_extension("mpg"@, video) == "video/mpeg"@,
        type_of_extension("mpeg"@, video) == "video/mpeg"@,
        type_of_extension("wmv"@, video) == "video/x-ms-wmv"@,
        type_of_extension("m3u8"@, video) == "application/x-mpegURL"@,
        type_of_extension(Seq::empty(), true) == "video/mp4"@,
        type_of_extension(Seq::empty(), false) == "audio/mpeg"@,
{
    lemma_extensions_differ();
}

/// The class decides first whether an item is a video, then its MIME type, and
/// only then the extension of its address; what says nothing is none.
pub proof fn lemma_video_signals(meta: MetaView, uri: Seq<char>)
    ensures
        meta.upnp_class is Some && crate::text::contains(meta.upnp_class->0, "videoItem"@)
            ==> is_video_item(meta, uri),
        meta.upnp_class is Some && !crate::text::contains(meta.upnp_class->0, "videoItem"@)
            && crate::text::contains(meta.upnp_class->0, "audioItem"@) ==> !is_video_item(
            meta,
            uri,
        ),
        meta.upnp_class is None && meta.mime is Some && crate::text::starts_with(
            meta.mime->0,
            "video/"@,
        ) ==> is_video_item(meta, uri),
        meta.upnp_class is None && meta.mime is Some && crate::text::starts_with(
            meta.mime->0,
            "audio/"@,
        ) && !crate::text::starts_with(meta.mime->0, "video/"@) ==> !is_video_item(meta, uri),
        meta.upnp_class is None && meta.mime is None && extension_of(uri) is None
            ==> !is_video_item(meta, uri),
        meta.upnp_class is None && meta.mime is None && (extension_of(uri) == Some("mkv"@)
            || extension_of(uri) == Some("mp4"@)) ==> is_video_item(meta, uri),
        meta.upnp_class is None && meta.mime is None && (extension_of(uri) == Some("mp3"@)
            || extension_of(uri) == Some("flac"@)) ==> !is_video_item(meta, uri),
{
    lemma_extensions_differ();
}

/// The type that an item came with stands, where it is one; only without it the
/// extension tells.
pub proof fn lemma_type_told(meta: MetaView, uri: Seq<char>, video: bool)
    ensures
        meta.mime is Some && meta.mime->0.contains('/') ==> item_content_type(meta, uri, video)
            == meta.mime->0,
        meta.mime is None && extension_of(uri) is Some ==> item_content_type(meta, uri, video)
            == type_of_extension(extension_of(uri)->0, video),
{
}

/// The five signs that XML knows are written as entities, and no other is.
pub proof fn lemma_entities(c: char)
    ensures
        entity('&') == "&amp;"@,
        entity('<') == "&lt;"@,
        entity('>') == "&gt;"@,
        entity('"') == "&quot;"@,
        entity('\'') == "&apos;"@,
        c != '&' && c != '<' && c != '>' && c != '"' && c != '\'' ==> entity(c) == seq![c],
{
    reveal_strlit("&amp;");
    reveal_strlit("&lt;");
    reveal_strlit("&gt;");
    reveal_strlit("&quot;");
    reveal_strlit("&apos;");
    assert(entity('&') =~= "&amp;"@);
    assert(entity('<') =~= "&lt;"@);
    assert(entity('>') =~= "&gt;"@);
    assert(entity('"') =~= "&quot;"@);
    assert(entity('\'') =~= "&apos;"@);
}

proof fn lemma_query_start(a: Seq<char>, rest: Seq<char>, from: int)
    requires
        0 <= from <= a.len(),
        forall|i: int| 0 <= i < a.len() ==> #[trigger] a[i] != '?' && a[i] != '#',
        rest.len() == 0 || rest[0] == '?' || rest[0] == '#',
    ensures
        query_start(a + rest, from) == a.len(),
    decreases a.len() - from,
{
    if from < a.len() {
        assert((a + rest)[from] == a[from]);
        lemma_query_start(a, rest, from + 1);
    } else if rest.len() > 0 {
        assert((a + rest)[from] == rest[0]);
    }
}

/// A query or a fragment behind an address is not part of it.
pub proof fn lemma_query_cut(a: Seq<char>, rest: Seq<char>)
    requires
        forall|i: int| 0 <= i < a.len() ==> #[trigger] a[i] != '?' && a[i] != '#',
        rest.len() == 0 || rest[0] == '?' || rest[0] == '#',
    ensures
        without_query(a + rest) == a,
{
    lemma_query_start(a, rest, 0);
    assert((a + rest).take(a.len() as int) =~= a);
}

proof fn lemma_after(s: Seq<char>, c: char, at: int, end: int)
    requires
        0 <= at <= end <= s.len(),
        at == 0 || s[at - 1] == c,
        forall|i: int| at <= i < end ==> #[trigger] s[i] != c,
    ensures
        crate::text::after_last(s, c, end) == at,
    decreases end - at,
{
    if at < end {
        lemma_after(s, c, at, end - 1);
    }
}

/// The extension of an address is what stands behind the last dot of its last
/// part, in small letters; the query does not matter.
pub proof fn lemma_extension_read(dir: Seq<char>, name: Seq<char>, ext: Seq<char>, rest: Seq<char>)
    requires
        forall|i: int|
            0 <= i < dir.len() ==> #[trigger] dir[i] != '?' && dir[i] != '#',
        dir.len() == 0 || dir.last() == '/',
        forall|i: int|
            0 <= i < name.len() ==> #[trigger] name[i] != '?' && name[i] != '#' && name[i] != '/',
        forall|i: int|
            0 <= i < ext.len() ==> #[trigger] ext[i] != '?' && ext[i] != '#' && ext[i] != '/'
                && ext[i] != '.',
        ext.len() > 0,
        vstd::utf8::encode_utf8(ext).len() <= 5,
        rest.len() == 0 || rest[0] == '?' || rest[0] == '#',
    ensures
        extension_of(dir + name + seq!['.'] + ext + rest) == Some(crate::text::lower(ext)),
{
    let seg = name + seq!['.'] + ext;
    let path = dir + name + seq!['.'] + ext;
    assert(path =~= dir + seg);
    assert forall|i: int| 0 <= i < path.len() implies #[trigger] path[i] != '?' && path[i] != '#' by {
        if i < dir.len() {
            assert(path[i] == dir[i]);
        } else if i < dir.len() + name.len() {
            assert(path[i] == name[i - dir.len()]);
        } else if i > dir.len() + name.len() {
            assert(path[i] == ext[i - dir.len() - name.len() - 1]);
        }
    }
    lemma_query_cut(path, rest);
    assert forall|i: int| dir.len() <= i < path.len() implies #[trigger] path[i] != '/' by {
        if i < dir.len() + name.len() {
            assert(path[i] == name[i - dir.len()]);
        } else if i > dir.len() + name.len() {
            assert(path[i] == ext[i - dir.len() - name.len() - 1]);
        }
    }
    if dir.len() > 0 {
        assert(path[dir.len() - 1] == dir.last());
    }
    lemma_after(path, '/', dir.len() as int, path.len() as int);
    assert(path.skip(dir.len() as int) =~= seg);
    let k = name.len() as int + 1;
    assert(seg[k - 1] == '.');
    assert forall|i: int| k <= i < seg.len() implies #[trigger] seg[i] != '.' by {
        assert(seg[i] == ext[i - k]);
    }
    lemma_after(seg, '.', k, seg.len() as int);
    assert(seg.skip(k) =~= ext);
}

/// An item without a title is named after the last part of its address, without
/// escapes; where there is none, it has a name all the same.
pub proof fn lemma_title_read(uri: Seq<char>)
    ensures
        crate::escape::percent_decoded(title_segment(uri)) is Some
            && crate::escape::percent_decoded(title_segment(uri))->0.len() > 0 ==> uri_title(uri)
            == crate::escape::percent_decoded(title_segment(uri))->0,
        crate::escape::percent_decoded(title_segment(uri)) is None && title_segment(uri).len() > 0
            ==> uri_title(uri) == title_segment(uri),
        uri_title(uri).len() > 0,
{
    reveal_strlit("UPnP stream");
}

/// The last part of a path is what stands behind its last slash.
pub proof fn lemma_last_segment(dir: Seq<char>, name: Seq<char>)
    requires
        forall|i: int| 0 <= i < name.len() ==> #[trigger] name[i] != '/',
    ensures
        last_segment(dir + seq!['/'] + name) == name,
        last_segment(name) == name,
{
    let p = dir + seq!['/'] + name;
    let k = dir.len() as int + 1;
    assert(p[k - 1] == '/');
    assert forall|i: int| k <= i < p.len() implies #[trigger] p[i] != '/' by {
        assert(p[i] == name[i - k]);
    }
    lemma_after(p, '/', k, p.len() as int);
    assert(p.skip(k) =~= name);
    lemma_after(name, '/', 0, name.len() as int);
    assert(name.skip(0) =~= name);
}

/// A document is read by its own elements: the title, the artist, or who made it
/// where no artist is named, the class and the picture; what is empty counts as
/// missing.
pub proof fn lemma_didl_read(didl: Seq<char>, t: Seq<char>)
    requires
        t.len() > 0,
    ensures
        text_of_tag(didl, "title"@) == Some(t) ==> didl_meta(didl).title == Some(t),
        text_of_tag(didl, "artist"@) == Some(t) ==> didl_meta(didl).artist == Some(t),
        text_of_tag(didl, "artist"@) is None && text_of_tag(didl, "creator"@) == Some(t)
            ==> didl_meta(didl).artist == Some(t),
        text_of_tag(didl, "class"@) == Some(t) ==> didl_meta(didl).upnp_class == Some(t),
        text_of_tag(didl, "albumArtURI"@) == Some(t) ==> didl_meta(didl).album_art == Some(t),
        text_of_tag(didl, "title"@) == Some(Seq::<char>::empty()) ==> didl_meta(didl).title is None,
        text_of_tag(didl, "title"@) is None ==> didl_meta(didl).title is None,
{
}

/// The length of an item is told as a clock time, and taken in whole seconds.
pub proof fn lemma_length_read(didl: Seq<char>, secs: nat)
    requires
        secs * 1_000_000 <= u64::MAX,
    ensures
        value_of_attr(didl, "duration"@) == Some(crate::num::hms(secs)) ==> didl_meta(
            didl,
        ).duration_secs == Some(secs),
        value_of_attr(didl, "duration"@) is None ==> didl_meta(didl).duration_secs is None,
{
    crate::num::lemma_hms_round_trip(secs);
}

} // verus!
