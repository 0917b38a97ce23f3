//! What this program writes for a renderer is what it reads as one: the metadata
//! of an item comes back as it went out.

use vstd::prelude::*;

use crate::config::VERSION;
use crate::mediarenderer::desc::{device_head, device_text, line_text, DEVICE_TAIL, HOME};
use crate::mediarenderer::xml::{
    decoded, didl_meta, element_text, encoded, ends_name, entity, lemma_decode_encode,
    lemma_name_end, local_part, name_end, nonempty, text_of_tag,
};
use crate::queue::QueueItem;
use crate::text::{
    after_last, find_from, index_of, is_space, lemma_find_from, lemma_index_of, lower, lower_char,
    matches_at, trim_end, trim_start, trimmed,
};
use crate::upnp::{artist_text, artwork_text, class_of, didl_text, DIDL_ITEM, DIDL_ROOT};

verus! {

/// The text of the first element with a lower-case local name.
pub open spec fn found(x: Seq<char>, n: Seq<char>) -> Option<Seq<char>> {
    element_text(x, lower(x), n, 0)
}

/// A character does not occur.
pub open spec fn free_of(s: Seq<char>, c: char) -> bool {
    forall|i: int| 0 <= i < s.len() ==> #[trigger] s[i] != c
}

pub(crate) proof fn lemma_lower_join(a: Seq<char>, b: Seq<char>)
    ensures
        lower(a + b) == lower(a) + lower(b),
{
    assert(lower(a + b) =~= lower(a) + lower(b));
}

proof fn lemma_index_shift(p: Seq<char>, x: Seq<char>, c: char, k: int)
    requires
        0 <= k,
    ensures
        index_of(p + x, c, p.len() + k) == (match index_of(x, c, k) {
            Some(i) => Some(i + p.len()),
            None => None,
        }),
    decreases x.len() - k,
{
    if k < x.len() {
        assert((p + x)[p.len() + k] == x[k]);
        if x[k] != c {
            lemma_index_shift(p, x, c, k + 1);
        }
    }
}

pub proof fn lemma_find_shift(p: Seq<char>, x: Seq<char>, n: Seq<char>, k: int)
    requires
        0 <= k,
    ensures
        find_from(p + x, n, p.len() + k) == (match find_from(x, n, k) {
            Some(i) => Some(i + p.len()),
            None => None,
        }),
    decreases x.len() + 1 - k,
{
    if k + n.len() <= x.len() {
        assert((p + x).subrange(p.len() + k, p.len() + k + n.len()) =~= x.subrange(
            k,
            k + n.len(),
        ));
        assert(matches_at(p + x, n, p.len() + k) == matches_at(x, n, k));
        if !matches_at(x, n, k) {
            lemma_find_shift(p, x, n, k + 1);
        }
    }
}

proof fn lemma_name_shift(p: Seq<char>, x: Seq<char>, k: int)
    requires
        0 <= k,
    ensures
        name_end(p + x, p.len() + k) == p.len() + name_end(x, k),
    decreases x.len() - k,
{
    if k < x.len() {
        assert((p + x)[p.len() + k] == x[k]);
        if !ends_name(x[k]) {
            lemma_name_shift(p, x, k + 1);
        }
    }
}

proof fn lemma_element_shift(
    p: Seq<char>,
    x: Seq<char>,
    q: Seq<char>,
    low: Seq<char>,
    n: Seq<char>,
    k: int,
)
    requires
        0 <= k,
        p.len() == q.len(),
        x.len() == low.len(),
    ensures
        element_text(p + x, q + low, n, p.len() + k) == element_text(x, low, n, k),
    decreases low.len() - k,
{
    if k < low.len() {
        lemma_index_shift(q, low, '<', k);
        lemma_index_of(low, '<', k);
        if let Some(lt) = index_of(low, '<', k) {
            let abs = lt + 1;
            lemma_name_end(low, abs);
            if abs < low.len() {
                assert((q + low)[q.len() + abs] == low[abs]);
            }
            if abs < low.len() && (low[abs] == '/' || low[abs] == '!' || low[abs] == '?') {
                lemma_element_shift(p, x, q, low, n, abs);
            } else {
                lemma_name_shift(q, low, abs);
                let end = name_end(low, abs);
                let name = low.subrange(abs, end);
                assert((q + low).subrange(q.len() + abs, q.len() + end) =~= name);
                if local_part(name) == n {
                    lemma_index_shift(q, low, '>', abs);
                    lemma_index_of(low, '>', abs);
                    if let Some(gt) = index_of(low, '>', abs) {
                        if gt > abs {
                            assert((q + low)[q.len() + gt - 1] == low[gt - 1]);
                        }
                        let close = "</"@ + name + ">"@;
                        lemma_find_shift(q, low, close, gt + 1);
                        lemma_find_from(low, close, gt + 1);
                        if let Some(c) = find_from(low, close, gt + 1) {
                            assert((p + x).subrange(p.len() + gt + 1, p.len() + c) =~= x.subrange(
                                gt + 1,
                                c,
                            ));
                        }
                    }
                } else {
                    lemma_element_shift(p, x, q, low, n, end);
                }
            }
        }
    }
}

proof fn lemma_index_jump(s: Seq<char>, c: char, from: int, to: int)
    requires
        0 <= from <= to <= s.len(),
        forall|i: int| from <= i < to ==> #[trigger] s[i] != c,
    ensures
        index_of(s, c, from) == index_of(s, c, to),
    decreases to - from,
{
    if from < to {
        lemma_index_jump(s, c, from + 1, to);
    }
}

proof fn lemma_element_jump(x: Seq<char>, low: Seq<char>, n: Seq<char>, from: int, to: int)
    requires
        0 <= from <= to <= low.len(),
        forall|i: int| from <= i < to ==> #[trigger] low[i] != '<',
    ensures
        element_text(x, low, n, from) == element_text(x, low, n, to),
{
    lemma_index_jump(low, '<', from, to);
    lemma_index_of(low, '<', to);
}

/// Text before an element does not matter.
pub(crate) proof fn lemma_skip_text(p: Seq<char>, x: Seq<char>, n: Seq<char>)
    requires
        free_of(p, '<'),
    ensures
        found(p + x, n) == found(x, n),
{
    lemma_lower_join(p, x);
    assert forall|i: int| 0 <= i < p.len() implies #[trigger] lower(p + x)[i] != '<' by {
        assert((p + x)[i] == p[i]);
    }
    lemma_element_jump(p + x, lower(p + x), n, 0, p.len() as int);
    lemma_element_shift(p, x, lower(p), lower(x), n, 0);
}

/// The first name of a tag.
pub open spec fn tag_name(body: Seq<char>) -> Seq<char> {
    lower(body).take(name_end(lower(body), 0))
}

/// Whether a tag is passed over in the search for a name.
pub open spec fn passed(body: Seq<char>, n: Seq<char>) -> bool {
    &&& body.len() > 0
    &&& free_of(body, '<')
    &&& body[0] == '/' || body[0] == '!' || body[0] == '?' || local_part(tag_name(body)) != n
}

pub(crate) proof fn lemma_name_stops(body: Seq<char>, rest: Seq<char>, k: int)
    requires
        0 <= k <= body.len(),
        rest.len() > 0,
        ends_name(rest[0]),
    ensures
        name_end(body + rest, k) == name_end(body, k),
        k <= name_end(body, k) <= body.len(),
    decreases body.len() - k,
{
    if k < body.len() {
        assert((body + rest)[k] == body[k]);
        if !ends_name(body[k]) {
            lemma_name_stops(body, rest, k + 1);
        }
    } else {
        assert((body + rest)[k] == rest[0]);
    }
}

/// A tag of another name does not matter.
pub(crate) proof fn lemma_skip_tag(body: Seq<char>, x: Seq<char>, n: Seq<char>)
    requires
        passed(body, n),
    ensures
        found(seq!['<'] + body + seq!['>'] + x, n) == found(x, n),
{
    let open = seq!['<'];
    let rest = seq!['>'] + x;
    let all = open + body + seq!['>'] + x;
    let inner = body + rest;
    assert(all =~= open + inner);
    let low = lower(all);
    lemma_lower_join(open, inner);
    lemma_lower_join(body, rest);
    assert(lower(open) =~= open);
    assert(low[0] == '<');
    assert(index_of(low, '<', 0) == Some(0int));
    assert(low[1] == lower_char(body[0])) by {
        assert(all[1] == body[0]);
    }
    let tail = seq!['<'] + body + seq!['>'];
    assert(all =~= tail + x);
    assert forall|i: int| 1 <= i < tail.len() implies #[trigger] low[i] != '<' by {
        assert(all[i] == tail[i]);
        if i - 1 < body.len() {
            assert(tail[i] == body[i - 1]);
        }
    }
    if body[0] == '/' || body[0] == '!' || body[0] == '?' {
        lemma_element_jump(all, low, n, 1, tail.len() as int);
    } else {
        assert(lower(rest)[0] == '>');
        lemma_name_stops(lower(body), lower(rest), 0);
        lemma_name_shift(open, lower(inner), 0);
        assert(low =~= open + lower(inner));
        assert(lower(inner) =~= lower(body) + lower(rest));
        let end = name_end(lower(body), 0);
        assert(name_end(low, 1) == 1 + end);
        assert(low.subrange(1, 1 + end) =~= tag_name(body));
        assert(low[1] != '/' && low[1] != '!' && low[1] != '?');
        lemma_element_jump(all, low, n, 1 + end, tail.len() as int);
    }
    lemma_lower_join(tail, x);
    lemma_element_shift(tail, x, lower(tail), lower(x), n, 0);
}

/// Whether an element with this name, which stands alone in its tag, is the one
/// that is searched for.
pub open spec fn named(name: Seq<char>, n: Seq<char>) -> bool {
    let low = lower(name);
    &&& low.len() > 0
    &&& name_end(low, 0) == low.len()
    &&& low[0] != '!' && low[0] != '?'
    &&& local_part(low) == n
}

proof fn lemma_first_match(s: Seq<char>, p: Seq<char>, from: int, at: int)
    requires
        0 <= from <= at,
        p.len() > 0,
        matches_at(s, p, at),
        forall|j: int| from <= j < at ==> #[trigger] s[j] != p[0],
    ensures
        find_from(s, p, from) == Some(at),
{
    lemma_find_from(s, p, from);
    assert forall|j: int| from <= j < at implies !matches_at(s, p, j) by {
        if matches_at(s, p, j) {
            assert(s.subrange(j, j + p.len())[0] == p[0]);
        }
    }
}

/// Where the tag of a lone name ends.
proof fn lemma_lone_tag(name: Seq<char>, low: Seq<char>, tail: Seq<char>)
    requires
        name.len() > 0,
        name_end(name, 0) == name.len(),
        low == seq!['<'] + name + seq!['>'] + tail,
    ensures
        index_of(low, '<', 0) == Some(0int),
        name_end(low, 1) == 1 + name.len(),
        low.subrange(1, 1 + name.len() as int) == name,
        index_of(low, '>', 1) == Some(1 + name.len() as int),
        low[name.len() as int] != '/',
        low[1] == name[0],
        low[1] != '/',
{
    let open = seq!['<'];
    let rest = seq!['>'] + tail;
    let m = name.len() as int;
    assert(low =~= open + (name + rest));
    lemma_name_stops(name, rest, 0);
    lemma_name_shift(open, name + rest, 0);
    assert(low.subrange(1, 1 + m) =~= name);
    assert forall|i: int| 1 <= i < 1 + m implies #[trigger] low[i] != '>' && low[i] != '/' by {
        assert(low[i] == name[i - 1]);
        lemma_no_end_inside(name, 0, i - 1);
    }
    assert(low[1 + m] == '>');
    lemma_index_jump(low, '>', 1, 1 + m);
}

/// An element of the name is what was searched for.
pub(crate) proof fn lemma_hit(name: Seq<char>, content: Seq<char>, x: Seq<char>, n: Seq<char>)
    requires
        named(name, n),
        free_of(content, '<'),
    ensures
        found(seq!['<'] + name + seq!['>'] + content + ("</"@ + name + ">"@) + x, n) == Some(
            decoded(trimmed(content)),
        ),
{
    let open = seq!['<'] + name + seq!['>'];
    let close = "</"@ + name + ">"@;
    let all = open + content + close + x;
    let low = lower(all);
    let ln = lower(name);
    let lclose = "</"@ + ln + ">"@;
    let m = name.len() as int;
    let start = 2 + m;
    let at = start + content.len();
    assert(lower(open) =~= seq!['<'] + ln + seq!['>']);
    assert(lower(close) =~= lclose) by {
        reveal_strlit("</");
        reveal_strlit(">");
    }
    assert(low =~= lower(open) + lower(content) + lclose + lower(x)) by {
        lemma_lower_join(open + content + close, x);
        lemma_lower_join(open + content, close);
        lemma_lower_join(open, content);
    }
    assert(low =~= seq!['<'] + ln + seq!['>'] + (lower(content) + lclose + lower(x)));
    lemma_lone_tag(ln, low, lower(content) + lclose + lower(x));
    assert(matches_at(low, lclose, at)) by {
        assert(low.subrange(at, at + lclose.len()) =~= lclose);
    }
    assert(lclose.len() > 0 && lclose[0] == '<') by {
        reveal_strlit("</");
    }
    assert forall|j: int| start <= j < at implies #[trigger] low[j] != lclose[0] by {
        assert(low[j] == lower(content)[j - start]);
        assert(content[j - start] != '<');
    }
    lemma_first_match(low, lclose, start, at);
    assert(all.subrange(start, at) =~= content);
}

proof fn lemma_no_end_inside(name: Seq<char>, from: int, i: int)
    requires
        0 <= from <= i < name.len(),
        name_end(name, from) == name.len(),
    ensures
        !ends_name(name[i]),
    decreases i - from,
{
    if from < i {
        lemma_no_end_inside(name, from + 1, i);
    }
}

proof fn lemma_nothing(x: Seq<char>, n: Seq<char>)
    requires
        free_of(x, '<'),
    ensures
        found(x, n) is None,
{
    assert forall|i: int| 0 <= i < lower(x).len() implies #[trigger] lower(x)[i] != '<' by {
        assert(x[i] != '<');
    }
    lemma_index_of(lower(x), '<', 0);
}

// ---------------------------------------------------------------------------
// What an encoded text holds
// ---------------------------------------------------------------------------

pub(crate) proof fn lemma_encoded_free(s: Seq<char>)
    ensures
        free_of(encoded(s), '<'),
        free_of(encoded(s), '"'),
    decreases s.len(),
{
    if s.len() > 0 {
        lemma_encoded_free(s.drop_last());
        let e = encoded(s);
        let k = encoded(s.drop_last()).len();
        assert forall|i: int| 0 <= i < e.len() implies #[trigger] e[i] != '<' && e[i] != '"' by {
            if i < k {
                assert(e[i] == encoded(s.drop_last())[i]);
            } else {
                assert(e[i] == entity(s.last())[i - k]);
            }
        }
    }
}

proof fn lemma_encoded_join(a: Seq<char>, b: Seq<char>)
    ensures
        encoded(a + b) == encoded(a) + encoded(b),
    decreases b.len(),
{
    if b.len() == 0 {
        assert(a + b =~= a);
        assert(encoded(a) + encoded(b) =~= encoded(a));
    } else {
        assert((a + b).drop_last() =~= a + b.drop_last());
        lemma_encoded_join(a, b.drop_last());
        assert(encoded(a + b) =~= encoded(a) + encoded(b));
    }
}

proof fn lemma_entity_ends(c: char)
    ensures
        entity(c).len() > 0,
        is_space(c) ==> entity(c) == seq![c],
        !is_space(c) ==> !is_space(entity(c)[0]) && !is_space(entity(c).last()),
{
}

proof fn lemma_trim_start_encoded(s: Seq<char>)
    ensures
        trim_start(encoded(s)) == encoded(trim_start(s)),
    decreases s.len(),
{
    if s.len() > 0 {
        let c = s[0];
        let t = s.skip(1);
        assert(s =~= seq![c] + t);
        lemma_encoded_join(seq![c], t);
        assert(encoded(seq![c]) =~= entity(c)) by {
            assert(seq![c].drop_last() =~= Seq::<char>::empty());
            assert(encoded(Seq::<char>::empty()) =~= Seq::<char>::empty());
        }
        lemma_entity_ends(c);
        let e = encoded(s);
        assert(e[0] == entity(c)[0]);
        if is_space(c) {
            assert(e.skip(1) =~= encoded(t));
            lemma_trim_start_encoded(t);
        }
    }
}

proof fn lemma_trim_end_encoded(s: Seq<char>)
    ensures
        trim_end(encoded(s)) == encoded(trim_end(s)),
    decreases s.len(),
{
    if s.len() > 0 {
        let c = s.last();
        lemma_entity_ends(c);
        let e = encoded(s);
        assert(e.last() == entity(c).last());
        if is_space(c) {
            assert(e.drop_last() =~= encoded(s.drop_last()));
            lemma_trim_end_encoded(s.drop_last());
        }
    }
}

/// An encoded text that is trimmed and decoded is the text, trimmed.
pub proof fn lemma_text_back(s: Seq<char>)
    ensures
        decoded(trimmed(encoded(s))) == trimmed(s),
{
    lemma_trim_start_encoded(s);
    lemma_trim_end_encoded(trim_start(s));
    lemma_decode_encode(trimmed(s));
}

// ---------------------------------------------------------------------------
// The document
// ---------------------------------------------------------------------------

/// The names of the elements that a document of an item has, in lower case and
/// without what stands before the colon.
pub open spec fn is_name(n: Seq<char>) -> bool {
    ||| n == "title"@
    ||| n == "artist"@
    ||| n == "creator"@
    ||| n == "class"@
    ||| n == "albumarturi"@
}

proof fn lemma_names_differ()
    ensures
        "title"@ != "artist"@,
        "title"@ != "creator"@,
        "title"@ != "class"@,
        "title"@ != "albumarturi"@,
        "artist"@ != "creator"@,
        "artist"@ != "class"@,
        "artist"@ != "albumarturi"@,
        "creator"@ != "class"@,
        "creator"@ != "albumarturi"@,
        "class"@ != "albumarturi"@,
{
    reveal_strlit("title");
    reveal_strlit("artist");
    reveal_strlit("creator");
    reveal_strlit("class");
    reveal_strlit("albumarturi");
    assert("title"@[0] == 't' && "artist"@[0] == 'a' && "creator"@[0] == 'c');
    assert("creator"@[1] == 'r' && "class"@[1] == 'l');
    assert("class"@[0] == 'c' && "albumarturi"@[0] == 'a');
    assert("artist"@[1] == 'r' && "albumarturi"@[1] == 'l');
}

/// A name whose first part ends with a colon, and what comes behind it.
proof fn lemma_local(a: Seq<char>, b: Seq<char>)
    requires
        free_of(b, ':'),
        a.len() > 0,
        a.last() == ':',
    ensures
        local_part(a + b) == b,
{
    lemma_after_last(a + b, a.len() as int, (a + b).len() as int);
    assert((a + b).skip(a.len() as int) =~= b);
}

proof fn lemma_after_last(s: Seq<char>, at: int, end: int)
    requires
        0 < at <= end <= s.len(),
        s[at - 1] == ':',
        forall|i: int| at <= i < end ==> #[trigger] s[i] != ':',
    ensures
        after_last(s, ':', end) == at,
    decreases end - at,
{
    if at < end {
        lemma_after_last(s, at, end - 1);
    }
}

proof fn lemma_no_colon(s: Seq<char>, end: int)
    requires
        0 <= end <= s.len(),
        free_of(s, ':'),
    ensures
        after_last(s, ':', end) == 0,
    decreases end,
{
    if end > 0 {
        lemma_no_colon(s, end - 1);
    }
}

proof fn lemma_whole_name(s: Seq<char>, from: int)
    requires
        0 <= from <= s.len(),
        forall|i: int| from <= i < s.len() ==> !ends_name(#[trigger] s[i]),
    ensures
        name_end(s, from) == s.len(),
    decreases s.len() - from,
{
    if from < s.len() {
        lemma_whole_name(s, from + 1);
    }
}

proof fn lemma_known_names()
    ensures
        named("dc:title"@, "title"@),
        named("upnp:artist"@, "artist"@),
        named("dc:creator"@, "creator"@),
        named("upnp:class"@, "class"@),
        named("upnp:albumArtURI"@, "albumarturi"@),
{
    reveal_strlit("dc:title");
    reveal_strlit("upnp:artist");
    reveal_strlit("dc:creator");
    reveal_strlit("upnp:class");
    reveal_strlit("upnp:albumArtURI");
    reveal_strlit("title");
    reveal_strlit("artist");
    reveal_strlit("creator");
    reveal_strlit("class");
    reveal_strlit("albumarturi");
    let dc = seq!['d', 'c', ':'];
    let up = seq!['u', 'p', 'n', 'p', ':'];
    assert(lower("dc:title"@) =~= dc + "title"@);
    assert(lower("upnp:artist"@) =~= up + "artist"@);
    assert(lower("dc:creator"@) =~= dc + "creator"@);
    assert(lower("upnp:class"@) =~= up + "class"@);
    assert(lower("upnp:albumArtURI"@) =~= up + "albumarturi"@);
    lemma_local(dc, "title"@);
    lemma_local(up, "artist"@);
    lemma_local(dc, "creator"@);
    lemma_local(up, "class"@);
    lemma_local(up, "albumarturi"@);
    lemma_whole_name(dc + "title"@, 0);
    lemma_whole_name(up + "artist"@, 0);
    lemma_whole_name(dc + "creator"@, 0);
    lemma_whole_name(up + "class"@, 0);
    lemma_whole_name(up + "albumarturi"@, 0);
}

/// An element of another name does not matter.
pub(crate) proof fn lemma_skip_element(
    name: Seq<char>,
    own: Seq<char>,
    content: Seq<char>,
    x: Seq<char>,
    n: Seq<char>,
)
    requires
        named(name, own),
        own != n,
        free_of(name, '<'),
        free_of(name, '>'),
        name[0] != '/',
        free_of(content, '<'),
    ensures
        found(seq!['<'] + name + seq!['>'] + content + ("</"@ + name + ">"@) + x, n) == found(
            x,
            n,
        ),
{
    let end = seq!['/'] + name;
    let after = content + (seq!['<'] + end + seq!['>'] + x);
    let all = seq!['<'] + name + seq!['>'] + content + ("</"@ + name + ">"@) + x;
    assert(all =~= seq!['<'] + name + seq!['>'] + after) by {
        reveal_strlit("</");
        reveal_strlit(">");
        assert("</"@ + name + ">"@ + x =~= seq!['<'] + end + seq!['>'] + x);
        assert(all =~= seq!['<'] + name + seq!['>'] + (content + ("</"@ + name + ">"@ + x)));
    }
    assert(tag_name(name) =~= lower(name));
    assert(lower(name)[0] == lower_char(name[0]));
    assert(name[0] != '!' && name[0] != '?');
    lemma_skip_tag(name, after, n);
    lemma_skip_text(content, seq!['<'] + end + seq!['>'] + x, n);
    assert forall|i: int| 0 <= i < end.len() implies #[trigger] end[i] != '<' && end[i] != '>' by {
        if i > 0 {
            assert(end[i] == name[i - 1]);
        }
    }
    lemma_skip_tag(end, x, n);
}

/// No tag begins or ends at or behind a position.
pub open spec fn plain(s: Seq<char>, from: int) -> bool
    decreases s.len() - from,
{
    from < 0 || from >= s.len() || (s[from] != '<' && s[from] != '>' && plain(s, from + 1))
}

proof fn lemma_plain(s: Seq<char>, from: int, i: int)
    requires
        0 <= from <= i < s.len(),
        plain(s, from),
    ensures
        s[i] != '<',
        s[i] != '>',
    decreases i - from,
{
    if from < i {
        lemma_plain(s, from + 1, i);
    }
}

pub(crate) proof fn lemma_plain_free(s: Seq<char>)
    requires
        plain(s, 0),
    ensures
        free_of(s, '<'),
        free_of(s, '>'),
{
    assert forall|i: int| 0 <= i < s.len() implies #[trigger] s[i] != '<' && s[i] != '>' by {
        lemma_plain(s, 0, i);
    }
}

proof fn lemma_root_plain()
    ensures
        plain(DIDL_ROOT@, 0),
{
    reveal_strlit(
        "DIDL-Lite xmlns=\"urn:schemas-upnp-org:metadata-1-0/DIDL-Lite/\" xmlns:dc=\"http://purl.org/dc/elements/1.1/\" xmlns:upnp=\"urn:schemas-upnp-org:metadata-1-0/upnp/\"",
    );
    let s = DIDL_ROOT@;
    assert(plain(s, 150)) by {
        reveal_with_fuel(plain, 32);
    }
    assert(plain(s, 120)) by {
        reveal_with_fuel(plain, 32);
    }
    assert(plain(s, 90)) by {
        reveal_with_fuel(plain, 32);
    }
    assert(plain(s, 60)) by {
        reveal_with_fuel(plain, 32);
    }
    assert(plain(s, 30)) by {
        reveal_with_fuel(plain, 32);
    }
    assert(plain(s, 0)) by {
        reveal_with_fuel(plain, 32);
    }
}

proof fn lemma_item_plain()
    ensures
        plain(DIDL_ITEM@, 0),
{
    reveal_strlit("item id=\"0\" parentID=\"-1\" restricted=\"1\"");
    reveal_with_fuel(plain, 60);
}

proof fn lemma_first_char(n: Seq<char>)
    requires
        is_name(n),
    ensures
        n.len() > 0,
        n[0] == 't' || n[0] == 'a' || n[0] == 'c',
{
    reveal_strlit("title");
    reveal_strlit("artist");
    reveal_strlit("creator");
    reveal_strlit("class");
    reveal_strlit("albumarturi");
}

/// The tag of a name without a colon that stands before a space.
proof fn lemma_spaced_tag(name: Seq<char>, rest: Seq<char>, n: Seq<char>)
    requires
        is_name(n),
        name.len() > 0,
        lower(name)[0] == 'd' || lower(name)[0] == 'i' || lower(name)[0] == 'r',
        forall|i: int| 0 <= i < name.len() ==> !ends_name(#[trigger] lower(name)[i]),
        free_of(lower(name), ':'),
        rest.len() > 0,
        rest[0] == ' ',
        free_of(name + rest, '<'),
    ensures
        passed(name + rest, n),
{
    let body = name + rest;
    lemma_lower_join(name, rest);
    lemma_whole_name(lower(name), 0);
    assert(lower(rest)[0] == ' ');
    lemma_name_stops(lower(name), lower(rest), 0);
    assert(tag_name(body) =~= lower(name));
    lemma_no_colon(lower(name), name.len() as int);
    assert(lower(name).skip(0) =~= lower(name));
    lemma_first_char(n);
    assert(lower(body)[0] == lower_char(body[0]));
    assert(body[0] == name[0]);
}

proof fn lemma_root_passed(n: Seq<char>)
    requires
        is_name(n),
    ensures
        passed(DIDL_ROOT@, n),
        passed(DIDL_ITEM@, n),
{
    lemma_root_plain();
    lemma_plain_free(DIDL_ROOT@);
    lemma_item_plain();
    lemma_plain_free(DIDL_ITEM@);
    reveal_strlit(
        "DIDL-Lite xmlns=\"urn:schemas-upnp-org:metadata-1-0/DIDL-Lite/\" xmlns:dc=\"http://purl.org/dc/elements/1.1/\" xmlns:upnp=\"urn:schemas-upnp-org:metadata-1-0/upnp/\"",
    );
    reveal_strlit("item id=\"0\" parentID=\"-1\" restricted=\"1\"");
    let a = DIDL_ROOT@;
    let an = seq!['D', 'I', 'D', 'L', '-', 'L', 'i', 't', 'e'];
    assert(a.take(9) =~= an);
    assert(a =~= an + a.skip(9));
    lemma_spaced_tag(an, a.skip(9), n);
    let b = DIDL_ITEM@;
    let bn = seq!['i', 't', 'e', 'm'];
    assert(b.take(4) =~= bn);
    assert(b =~= bn + b.skip(4));
    lemma_spaced_tag(bn, b.skip(4), n);
}

/// The end of a document, from the stream on.
pub open spec fn stream_part(item: QueueItem) -> Seq<char> {
    "<res protocolInfo=\"http-get:*:"@ + item.content_type@ + ":*\">"@ + encoded(item.stream_url@)
        + "</res></item></DIDL-Lite>"@
}

proof fn lemma_stream_part(item: QueueItem, n: Seq<char>)
    requires
        is_name(n),
        free_of(item.content_type@, '<'),
    ensures
        found(stream_part(item), n) is None,
{
    reveal_strlit("<res protocolInfo=\"http-get:*:");
    reveal_strlit(":*\">");
    reveal_strlit("</res></item></DIDL-Lite>");
    let ct = item.content_type@;
    let rn = seq!['r', 'e', 's'];
    let mid = "<res protocolInfo=\"http-get:*:"@.skip(4) + ct + seq![':', '*', '"'];
    let u = encoded(item.stream_url@);
    let e1 = seq!['/', 'r', 'e', 's'];
    let e2 = seq!['/', 'i', 't', 'e', 'm'];
    let e3 = seq!['/', 'D', 'I', 'D', 'L', '-', 'L', 'i', 't', 'e'];
    let t3 = seq!['<'] + e3 + seq!['>'] + Seq::<char>::empty();
    let t2 = seq!['<'] + e2 + seq!['>'] + t3;
    let t1 = seq!['<'] + e1 + seq!['>'] + t2;
    assert("</res></item></DIDL-Lite>"@ =~= t1);
    let all = stream_part(item);
    assert("<res protocolInfo=\"http-get:*:"@ =~= seq!['<'] + rn
        + "<res protocolInfo=\"http-get:*:"@.skip(4));
    assert(":*\">"@ =~= seq![':', '*', '"'] + seq!['>']);
    assert(all =~= seq!['<'] + (rn + mid) + seq!['>'] + (u + t1));
    assert forall|i: int| 0 <= i < (rn + mid).len() implies #[trigger] (rn + mid)[i] != '<' by {
        let k = "<res protocolInfo=\"http-get:*:"@.len();
        if i >= k - 1 && i < k - 1 + ct.len() {
            assert((rn + mid)[i] == ct[i - (k - 1)]);
        }
    }
    lemma_spaced_tag(rn, mid, n);
    lemma_skip_tag(rn + mid, u + t1, n);
    lemma_encoded_free(item.stream_url@);
    lemma_skip_text(u, t1, n);
    lemma_skip_tag(e1, t2, n);
    lemma_skip_tag(e2, t3, n);
    lemma_skip_tag(e3, Seq::empty(), n);
    lemma_nothing(Seq::empty(), n);
}

/// The end of a document, from the picture on.
pub open spec fn picture_part(item: QueueItem) -> Seq<char> {
    artwork_text(crate::text::opt_view(item.image_url)) + stream_part(item)
}

/// The end of a document, from the class on.
pub open spec fn class_part(item: QueueItem) -> Seq<char> {
    "<upnp:class>"@ + class_of(item.is_video) + "</upnp:class>"@ + picture_part(item)
}

/// The end of a document, from the artist on.
pub open spec fn artist_part(item: QueueItem) -> Seq<char> {
    artist_text(item.subtitle@) + class_part(item)
}

/// An element as it is written.
pub open spec fn element(name: Seq<char>, content: Seq<char>) -> Seq<char> {
    seq!['<'] + name + seq!['>'] + content + ("</"@ + name + ">"@)
}

proof fn lemma_elements_written(a: Seq<char>, x: Seq<char>)
    ensures
        "<upnp:class>"@ + a + "</upnp:class>"@ + x == element("upnp:class"@, a) + x,
        "<upnp:albumArtURI>"@ + a + "</upnp:albumArtURI>"@ + x == element(
            "upnp:albumArtURI"@,
            a,
        ) + x,
        "<upnp:artist>"@ + a + "</upnp:artist><dc:creator>"@ + a + "</dc:creator>"@ + x == element(
            "upnp:artist"@,
            a,
        ) + (element("dc:creator"@, a) + x),
        "<dc:title>"@ + a + "</dc:title>"@ + x == element("dc:title"@, a) + x,
{
    reveal_strlit("</");
    reveal_strlit(">");
    reveal_strlit("upnp:class");
    reveal_strlit("<upnp:class>");
    reveal_strlit("</upnp:class>");
    reveal_strlit("upnp:albumArtURI");
    reveal_strlit("<upnp:albumArtURI>");
    reveal_strlit("</upnp:albumArtURI>");
    reveal_strlit("upnp:artist");
    reveal_strlit("<upnp:artist>");
    reveal_strlit("dc:creator");
    reveal_strlit("</upnp:artist><dc:creator>");
    reveal_strlit("</dc:creator>");
    reveal_strlit("dc:title");
    reveal_strlit("<dc:title>");
    reveal_strlit("</dc:title>");
    let lt = seq!['<'];
    let gt = seq!['>'];
    assert("<upnp:class>"@ =~= lt + "upnp:class"@ + gt);
    assert("</upnp:class>"@ =~= "</"@ + "upnp:class"@ + ">"@);
    assert("<upnp:albumArtURI>"@ =~= lt + "upnp:albumArtURI"@ + gt);
    assert("</upnp:albumArtURI>"@ =~= "</"@ + "upnp:albumArtURI"@ + ">"@);
    assert("<upnp:artist>"@ =~= lt + "upnp:artist"@ + gt);
    assert("</upnp:artist><dc:creator>"@ =~= ("</"@ + "upnp:artist"@ + ">"@) + (lt + "dc:creator"@
        + gt));
    assert("</dc:creator>"@ =~= "</"@ + "dc:creator"@ + ">"@);
    assert("<dc:title>"@ =~= lt + "dc:title"@ + gt);
    assert("</dc:title>"@ =~= "</"@ + "dc:title"@ + ">"@);
    let p = lt + "upnp:artist"@ + gt;
    let q = "</"@ + "upnp:artist"@ + ">"@;
    let r = lt + "dc:creator"@ + gt;
    let c = "</"@ + "dc:creator"@ + ">"@;
    lemma_regroup(p, a, q, r, c, x);
}

proof fn lemma_regroup(
    p: Seq<char>,
    a: Seq<char>,
    q: Seq<char>,
    r: Seq<char>,
    c: Seq<char>,
    x: Seq<char>,
)
    ensures
        p + a + (q + r) + a + c + x == p + a + q + (r + a + c + x),
{
    assert(p + a + (q + r) + a + c + x =~= p + a + q + (r + a + c + x));
}

proof fn lemma_tag_signs()
    ensures
        free_of("dc:title"@, '<') && free_of("dc:title"@, '>') && "dc:title"@[0] != '/',
        free_of("upnp:artist"@, '<') && free_of("upnp:artist"@, '>') && "upnp:artist"@[0] != '/',
        free_of("dc:creator"@, '<') && free_of("dc:creator"@, '>') && "dc:creator"@[0] != '/',
        free_of("upnp:class"@, '<') && free_of("upnp:class"@, '>') && "upnp:class"@[0] != '/',
        free_of("upnp:albumArtURI"@, '<') && free_of("upnp:albumArtURI"@, '>')
            && "upnp:albumArtURI"@[0] != '/',
{
    reveal_strlit("dc:title");
    reveal_strlit("upnp:artist");
    reveal_strlit("dc:creator");
    reveal_strlit("upnp:class");
    reveal_strlit("upnp:albumArtURI");
}

proof fn lemma_picture_part(item: QueueItem, n: Seq<char>)
    requires
        is_name(n),
        free_of(item.content_type@, '<') || (n == "albumarturi"@ && item.image_url is Some),
    ensures
        found(picture_part(item), n) == (if n == "albumarturi"@ {
            match crate::text::opt_view(item.image_url) {
                Some(u) => Some(trimmed(u)),
                None => None,
            }
        } else {
            None
        }),
{
    if free_of(item.content_type@, '<') {
        lemma_stream_part(item, n);
    }
    lemma_known_names();
    lemma_tag_signs();
    let x = stream_part(item);
    match crate::text::opt_view(item.image_url) {
        Some(u) => {
            lemma_elements_written(encoded(u), x);
            lemma_encoded_free(u);
            if n == "albumarturi"@ {
                lemma_hit("upnp:albumArtURI"@, encoded(u), x, n);
                lemma_text_back(u);
            } else {
                lemma_skip_element("upnp:albumArtURI"@, "albumarturi"@, encoded(u), x, n);
            }
        },
        None => {
            assert(picture_part(item) =~= x);
        },
    }
}

pub(crate) proof fn lemma_decode_plain(s: Seq<char>)
    requires
        free_of(s, '&'),
    ensures
        decoded(s) == s,
    decreases s.len(),
{
    if s.len() > 0 {
        assert forall|c: char| entity(c).len() > 1 implies !#[trigger] crate::text::starts_with(
            s,
            entity(c),
        ) by {
            if crate::text::starts_with(s, entity(c)) {
                assert(s.subrange(0, entity(c).len() as int)[0] == entity(c)[0]);
                assert(s[0] == '&');
            }
        }
        assert(!crate::text::starts_with(s, entity('<')));
        assert(!crate::text::starts_with(s, entity('>')));
        assert(!crate::text::starts_with(s, entity('"')));
        assert(!crate::text::starts_with(s, entity('\'')));
        assert(!crate::text::starts_with(s, entity('&')));
        lemma_decode_plain(s.skip(1));
        assert(seq![s[0]] + s.skip(1) =~= s);
    }
}

proof fn lemma_class_text(is_video: bool)
    ensures
        free_of(class_of(is_video), '<'),
        decoded(trimmed(class_of(is_video))) == class_of(is_video),
        class_of(is_video).len() > 0,
{
    reveal_strlit("object.item.videoItem");
    reveal_strlit("object.item.audioItem.musicTrack");
    let s = class_of(is_video);
    assert(free_of(s, '&'));
    assert(trim_start(s) == s);
    assert(trimmed(s) == s);
    lemma_decode_plain(s);
}

proof fn lemma_class_part(item: QueueItem, n: Seq<char>)
    requires
        is_name(n),
    ensures
        found(class_part(item), n) == (if n == "class"@ {
            Some(class_of(item.is_video))
        } else {
            found(picture_part(item), n)
        }),
{
    lemma_known_names();
    lemma_tag_signs();
    lemma_class_text(item.is_video);
    let x = picture_part(item);
    let c = class_of(item.is_video);
    lemma_elements_written(c, x);
    if n == "class"@ {
        lemma_hit("upnp:class"@, c, x, n);
    } else {
        lemma_skip_element("upnp:class"@, "class"@, c, x, n);
    }
}

proof fn lemma_artist_part(item: QueueItem, n: Seq<char>)
    requires
        is_name(n),
    ensures
        found(artist_part(item), n) == (if (n == "artist"@ || n == "creator"@)
            && item.subtitle@.len() > 0 {
            Some(trimmed(item.subtitle@))
        } else {
            found(class_part(item), n)
        }),
{
    lemma_known_names();
    lemma_tag_signs();
    lemma_names_differ();
    let x = class_part(item);
    let s = item.subtitle@;
    if s.len() == 0 {
        assert(artist_part(item) =~= x);
    } else {
        let a = encoded(s);
        lemma_elements_written(a, x);
        lemma_encoded_free(s);
        lemma_text_back(s);
        let y = element("dc:creator"@, a) + x;
        if n == "artist"@ {
            lemma_hit("upnp:artist"@, a, y, n);
        } else {
            lemma_skip_element("upnp:artist"@, "artist"@, a, y, n);
            if n == "creator"@ {
                lemma_hit("dc:creator"@, a, x, n);
            } else {
                lemma_skip_element("dc:creator"@, "creator"@, a, x, n);
            }
        }
    }
}

proof fn lemma_didl_shape(item: QueueItem)
    ensures
        didl_text(item) == seq!['<'] + DIDL_ROOT@ + seq!['>'] + (seq!['<'] + DIDL_ITEM@ + seq!['>']
            + (element("dc:title"@, encoded(item.title@)) + artist_part(item))),
{
    let x = artist_part(item);
    let t = encoded(item.title@);
    lemma_didl_grouping(
        item,
        t,
        artist_text(item.subtitle@),
        class_of(item.is_video),
        artwork_text(crate::text::opt_view(item.image_url)),
    );
    lemma_elements_written(t, x);
    assert("<"@ =~= seq!['<'] && "><"@ =~= seq!['>'] + seq!['<'] && "><dc:title>"@ =~= seq!['>']
        + "<dc:title>"@) by {
        reveal_strlit("<");
        reveal_strlit("><");
        reveal_strlit("><dc:title>");
        reveal_strlit("<dc:title>");
    }
    lemma_shape_grouping(DIDL_ROOT@, DIDL_ITEM@, "<dc:title>"@, t, "</dc:title>"@, x);
}

proof fn lemma_shape_grouping(
    root: Seq<char>,
    item: Seq<char>,
    open: Seq<char>,
    t: Seq<char>,
    close: Seq<char>,
    x: Seq<char>,
)
    ensures
        seq!['<'] + root + (seq!['>'] + seq!['<']) + item + (seq!['>'] + open) + t + close + x
            == seq!['<'] + root + seq!['>'] + (seq!['<'] + item + seq!['>'] + (open + t + close
            + x)),
{
    assert(seq!['<'] + root + (seq!['>'] + seq!['<']) + item + (seq!['>'] + open) + t + close + x
        =~= seq!['<'] + root + seq!['>'] + (seq!['<'] + item + seq!['>'] + (open + t + close
        + x)));
}

proof fn lemma_document(item: QueueItem, n: Seq<char>)
    requires
        is_name(n),
    ensures
        found(didl_text(item), n) == (if n == "title"@ {
            Some(trimmed(item.title@))
        } else {
            found(artist_part(item), n)
        }),
{
    let x = artist_part(item);
    let t = encoded(item.title@);
    let inner = element("dc:title"@, t) + x;
    let second = seq!['<'] + DIDL_ITEM@ + seq!['>'] + inner;
    lemma_didl_shape(item);
    lemma_root_passed(n);
    lemma_skip_tag(DIDL_ROOT@, second, n);
    lemma_skip_tag(DIDL_ITEM@, inner, n);
    lemma_known_names();
    lemma_encoded_free(item.title@);
    if n == "title"@ {
        lemma_hit("dc:title"@, t, x, n);
        lemma_text_back(item.title@);
    } else {
        lemma_tag_signs();
        lemma_skip_element("dc:title"@, "title"@, t, x, n);
    }
}

proof fn lemma_didl_grouping(
    item: QueueItem,
    t: Seq<char>,
    artist: Seq<char>,
    class: Seq<char>,
    art: Seq<char>,
)
    requires
        t == encoded(item.title@),
        artist == artist_text(item.subtitle@),
        class == class_of(item.is_video),
        art == artwork_text(crate::text::opt_view(item.image_url)),
    ensures
        didl_text(item) == "<"@ + DIDL_ROOT@ + "><"@ + DIDL_ITEM@ + "><dc:title>"@ + t
            + "</dc:title>"@ + artist_part(item),
{
    assert(didl_text(item) =~= "<"@ + DIDL_ROOT@ + "><"@ + DIDL_ITEM@ + "><dc:title>"@ + t
        + "</dc:title>"@ + artist_part(item));
}

/// What another instance reads of an item is what this one wrote of it: the
/// title, the class, the artist and the picture, without the blanks around
/// them. An item without an artist, or without a picture, is read as one
/// wherever its content type, which is written as it is, holds no element of its
/// own.
pub proof fn lemma_metadata_comes_back(item: QueueItem)
    ensures
        ({
            let m = didl_meta(didl_text(item));
            let plain = free_of(item.content_type@, '<');
            &&& m.title == nonempty(Some(trimmed(item.title@)))
            &&& m.upnp_class == Some(class_of(item.is_video))
            &&& plain || item.subtitle@.len() > 0 ==> m.artist == nonempty(
                Some(trimmed(item.subtitle@)),
            )
            &&& plain || item.image_url is Some ==> m.album_art == (match crate::text::opt_view(
                item.image_url,
            ) {
                Some(u) => nonempty(Some(trimmed(u))),
                None => None,
            })
        }),
{
    let d = didl_text(item);
    reveal_strlit("title");
    reveal_strlit("artist");
    reveal_strlit("creator");
    reveal_strlit("class");
    reveal_strlit("albumArtURI");
    reveal_strlit("albumarturi");
    assert(lower("title"@) =~= "title"@);
    assert(lower("artist"@) =~= "artist"@);
    assert(lower("creator"@) =~= "creator"@);
    assert(lower("class"@) =~= "class"@);
    assert(lower("albumArtURI"@) =~= "albumarturi"@);
    lemma_names_differ();
    lemma_document(item, "title"@);
    lemma_document(item, "artist"@);
    lemma_document(item, "creator"@);
    lemma_document(item, "class"@);
    lemma_document(item, "albumarturi"@);
    lemma_artist_part(item, "artist"@);
    lemma_artist_part(item, "creator"@);
    lemma_artist_part(item, "class"@);
    lemma_artist_part(item, "albumarturi"@);
    lemma_class_part(item, "artist"@);
    lemma_class_part(item, "creator"@);
    lemma_class_part(item, "class"@);
    lemma_class_part(item, "albumarturi"@);
    if free_of(item.content_type@, '<') {
        lemma_picture_part(item, "artist"@);
        lemma_picture_part(item, "creator"@);
    }
    if free_of(item.content_type@, '<') || item.image_url is Some {
        lemma_picture_part(item, "albumarturi"@);
    }
    lemma_class_text(item.is_video);
    if item.subtitle@.len() == 0 {
        assert(trim_start(item.subtitle@) == item.subtitle@);
        assert(trimmed(item.subtitle@) == item.subtitle@);
    }
}

// ---------------------------------------------------------------------------
// The attributes
// ---------------------------------------------------------------------------

/// Whether a quoted value begins at a position, behind a name that ends with a
/// letter.
pub open spec fn value_at(s: Seq<char>, c: char, i: int) -> bool {
    0 <= i && i + 2 < s.len() && lower_char(s[i]) == c && s[i + 1] == '=' && s[i + 2] == '"'
}

/// No quoted value stands behind a name that ends with a letter.
pub open spec fn no_value(s: Seq<char>, c: char) -> bool {
    forall|i: int| !#[trigger] value_at(s, c, i)
}

/// The same from a position on.
pub open spec fn no_value_from(s: Seq<char>, c: char, from: int) -> bool
    decreases s.len() - from,
{
    from < 0 || from + 2 >= s.len() || (!value_at(s, c, from) && no_value_from(s, c, from + 1))
}

proof fn lemma_no_value_at(s: Seq<char>, c: char, from: int, i: int)
    requires
        0 <= from <= i,
        no_value_from(s, c, from),
    ensures
        !value_at(s, c, i),
    decreases i - from,
{
    if from < i && from + 2 < s.len() {
        lemma_no_value_at(s, c, from + 1, i);
    }
}

proof fn lemma_no_value(s: Seq<char>, c: char)
    requires
        no_value_from(s, c, 0),
    ensures
        no_value(s, c),
{
    assert forall|i: int| !#[trigger] value_at(s, c, i) by {
        if i >= 0 {
            lemma_no_value_at(s, c, 0, i);
        }
    }
}

proof fn lemma_unquoted(s: Seq<char>, c: char)
    requires
        free_of(s, '"'),
    ensures
        no_value(s, c),
{
}

proof fn lemma_join_values(a: Seq<char>, b: Seq<char>, c: char)
    requires
        no_value(a, c),
        no_value(b, c),
        a.len() > 0 && b.len() > 0 ==> !(lower_char(a.last()) == c && b[0] == '=') && !(a.last()
            == '=' && b[0] == '"'),
    ensures
        no_value(a + b, c),
{
    let s = a + b;
    assert forall|i: int| !#[trigger] value_at(s, c, i) by {
        if value_at(s, c, i) {
            if i + 2 < a.len() {
                assert(value_at(a, c, i));
            } else if i >= a.len() {
                assert(value_at(b, c, i - a.len()));
            } else if i + 1 == a.len() {
                assert(s[i] == a.last() && s[i + 1] == b[0]);
            } else {
                assert(s[i + 1] == a.last() && s[i + 2] == b[0]);
            }
        }
    }
}

proof fn lemma_root_values(c: char)
    requires
        c == 'o' || c == 'n',
    ensures
        no_value(DIDL_ROOT@, c),
        no_value(DIDL_ITEM@, c),
{
    reveal_strlit(
        "DIDL-Lite xmlns=\"urn:schemas-upnp-org:metadata-1-0/DIDL-Lite/\" xmlns:dc=\"http://purl.org/dc/elements/1.1/\" xmlns:upnp=\"urn:schemas-upnp-org:metadata-1-0/upnp/\"",
    );
    reveal_strlit("item id=\"0\" parentID=\"-1\" restricted=\"1\"");
    let s = DIDL_ROOT@;
    assert(no_value_from(s, c, 150)) by {
        reveal_with_fuel(no_value_from, 32);
    }
    assert(no_value_from(s, c, 120)) by {
        reveal_with_fuel(no_value_from, 32);
    }
    assert(no_value_from(s, c, 90)) by {
        reveal_with_fuel(no_value_from, 32);
    }
    assert(no_value_from(s, c, 60)) by {
        reveal_with_fuel(no_value_from, 32);
    }
    assert(no_value_from(s, c, 30)) by {
        reveal_with_fuel(no_value_from, 32);
    }
    assert(no_value_from(s, c, 0)) by {
        reveal_with_fuel(no_value_from, 32);
    }
    lemma_no_value(s, c);
    assert(no_value_from(DIDL_ITEM@, c, 0)) by {
        reveal_with_fuel(no_value_from, 50);
    }
    lemma_no_value(DIDL_ITEM@, c);
}

/// What stands before the stream.
pub open spec fn before_stream(item: QueueItem) -> Seq<char> {
    "<"@ + DIDL_ROOT@ + "><"@ + DIDL_ITEM@ + "><dc:title>"@ + encoded(item.title@) + "</dc:title>"@
        + artist_text(item.subtitle@) + "<upnp:class>"@ + class_of(item.is_video)
        + "</upnp:class>"@ + artwork_text(crate::text::opt_view(item.image_url))
}

/// A text that begins and ends a tag, so that nothing of an attribute is at its
/// ends.
pub open spec fn edged(s: Seq<char>) -> bool {
    s.len() > 0 ==> (s[0] == '<' || s[0] == '>') && (s.last() == '<' || s.last() == '>')
}

proof fn lemma_join_edged(a: Seq<char>, b: Seq<char>, c: char)
    requires
        c == 'o' || c == 'n',
        no_value(a, c),
        no_value(b, c),
        edged(a) || edged(b),
    ensures
        no_value(a + b, c),
{
    lemma_join_values(a, b, c);
}

proof fn lemma_literal_edges()
    ensures
        edged("<"@) && free_of("<"@, '"'),
        edged("><"@) && free_of("><"@, '"'),
        edged("><dc:title>"@) && free_of("><dc:title>"@, '"'),
        edged("</dc:title>"@) && free_of("</dc:title>"@, '"'),
        edged("<upnp:class>"@) && free_of("<upnp:class>"@, '"'),
        edged("</upnp:class>"@) && free_of("</upnp:class>"@, '"'),
        "><"@.len() > 0 && "><dc:title>"@.len() > 0 && "<upnp:class>"@.len() > 0,
{
    reveal_strlit("<");
    reveal_strlit("><");
    reveal_strlit("><dc:title>");
    reveal_strlit("</dc:title>");
    reveal_strlit("<upnp:class>");
    reveal_strlit("</upnp:class>");
}

proof fn lemma_part_edges(item: QueueItem)
    ensures
        edged(artist_text(item.subtitle@)) && free_of(artist_text(item.subtitle@), '"'),
        edged(artwork_text(crate::text::opt_view(item.image_url))) && free_of(
            artwork_text(crate::text::opt_view(item.image_url)),
            '"',
        ),
        free_of(class_of(item.is_video), '"'),
{
    reveal_strlit("<upnp:artist>");
    reveal_strlit("</upnp:artist><dc:creator>");
    reveal_strlit("</dc:creator>");
    reveal_strlit("<upnp:albumArtURI>");
    reveal_strlit("</upnp:albumArtURI>");
    reveal_strlit("object.item.videoItem");
    reveal_strlit("object.item.audioItem.musicTrack");
    lemma_encoded_free(item.subtitle@);
    if let Some(u) = crate::text::opt_view(item.image_url) {
        lemma_encoded_free(u);
    }
}

proof fn lemma_before_stream(item: QueueItem, c: char)
    requires
        c == 'o' || c == 'n',
    ensures
        no_value(before_stream(item), c),
{
    lemma_root_values(c);
    lemma_literal_edges();
    lemma_part_edges(item);
    lemma_encoded_free(item.title@);
    let t = encoded(item.title@);
    let artist = artist_text(item.subtitle@);
    let class = class_of(item.is_video);
    let art = artwork_text(crate::text::opt_view(item.image_url));
    lemma_unquoted("<"@, c);
    lemma_unquoted("><"@, c);
    lemma_unquoted("><dc:title>"@, c);
    lemma_unquoted(t, c);
    lemma_unquoted("</dc:title>"@, c);
    lemma_unquoted(artist, c);
    lemma_unquoted("<upnp:class>"@, c);
    lemma_unquoted(class, c);
    lemma_unquoted("</upnp:class>"@, c);
    lemma_unquoted(art, c);
    let s1 = "<"@ + DIDL_ROOT@;
    let s2 = s1 + "><"@;
    let s3 = s2 + DIDL_ITEM@;
    let s4 = s3 + "><dc:title>"@;
    let s5 = s4 + t;
    let s6 = s5 + "</dc:title>"@;
    let s7 = s6 + artist;
    let s8 = s7 + "<upnp:class>"@;
    let s9 = s8 + class;
    let s10 = s9 + "</upnp:class>"@;
    lemma_join_edged("<"@, DIDL_ROOT@, c);
    lemma_join_edged(s1, "><"@, c);
    lemma_join_edged("><"@, DIDL_ITEM@, c);
    lemma_join_right(s1, "><"@, DIDL_ITEM@, c);
    lemma_join_edged(s3, "><dc:title>"@, c);
    lemma_join_right(s3, "><dc:title>"@, t, c);
    lemma_join_edged(s5, "</dc:title>"@, c);
    lemma_join_edged(s6, artist, c);
    lemma_join_edged(s7, "<upnp:class>"@, c);
    lemma_join_right(s7, "<upnp:class>"@, class, c);
    lemma_join_edged(s9, "</upnp:class>"@, c);
    lemma_join_edged(s10, art, c);
}

/// Behind an edge anything may follow that has no such value itself.
proof fn lemma_join_right(a: Seq<char>, edge: Seq<char>, b: Seq<char>, c: char)
    requires
        c == 'o' || c == 'n',
        no_value(a + edge, c),
        no_value(b, c),
        edge.len() > 0,
        edged(edge),
    ensures
        no_value(a + edge + b, c),
{
    assert((a + edge).last() == edge.last());
    lemma_join_values(a + edge, b, c);
}

proof fn lemma_split_at_stream(item: QueueItem)
    ensures
        didl_text(item) == before_stream(item) + stream_part(item),
{
    assert(didl_text(item) =~= before_stream(item) + stream_part(item));
}

/// The stream's tag up to its attribute.
pub open spec fn stream_tag() -> Seq<char> {
    seq!['<', 'r', 'e', 's', ' ']
}

/// What the attribute says.
pub open spec fn protocol_text(content_type: Seq<char>) -> Seq<char> {
    "http-get:*:"@ + content_type + ":*"@
}

/// The attribute, from its name on, and what follows.
pub open spec fn attribute_part(item: QueueItem) -> Seq<char> {
    "protocolInfo=\""@ + protocol_text(item.content_type@) + seq!['"', '>'] + encoded(
        item.stream_url@,
    ) + "</res></item></DIDL-Lite>"@
}

proof fn lemma_stream_shape(item: QueueItem)
    ensures
        stream_part(item) == stream_tag() + attribute_part(item),
{
    reveal_strlit("<res protocolInfo=\"http-get:*:");
    reveal_strlit("protocolInfo=\"");
    reveal_strlit("http-get:*:");
    reveal_strlit(":*\">");
    reveal_strlit(":*");
    assert("<res protocolInfo=\"http-get:*:"@ =~= stream_tag() + "protocolInfo=\""@
        + "http-get:*:"@);
    assert(":*\">"@ =~= ":*"@ + seq!['"', '>']);
    let u = encoded(item.stream_url@);
    let e = "</res></item></DIDL-Lite>"@;
    assert(stream_part(item) =~= stream_tag() + attribute_part(item));
}

proof fn lemma_lower_keeps(c: char)
    ensures
        lower_char(c) == '=' <==> c == '=',
        lower_char(c) == '"' <==> c == '"',
        lower_char(c) == ' ' <==> c == ' ',
{
}

/// A match of an attribute's name is a quoted value behind its last letter.
proof fn lemma_match_is_value(s: Seq<char>, needle: Seq<char>, j: int, c: char)
    requires
        needle.len() >= 3,
        needle[needle.len() - 3] == c,
        needle[needle.len() - 2] == '=',
        needle[needle.len() - 1] == '"',
        matches_at(lower(s), needle, j),
    ensures
        value_at(s, c, j + needle.len() - 3),
{
    let k = needle.len() as int;
    let w = lower(s).subrange(j, j + k);
    assert(w[k - 3] == lower_char(s[j + k - 3]));
    assert(w[k - 2] == lower_char(s[j + k - 2]));
    assert(w[k - 1] == lower_char(s[j + k - 1]));
    lemma_lower_keeps(s[j + k - 2]);
    lemma_lower_keeps(s[j + k - 1]);
}

proof fn lemma_needle()
    ensures
        lower("protocolInfo"@) + "=\""@ == "protocolinfo=\""@,
        "protocolinfo=\""@.len() == 14,
        "protocolinfo=\""@[11] == 'o' && "protocolinfo=\""@[12] == '=' && "protocolinfo=\""@[13]
            == '"',
        free_of("protocolinfo=\""@, ' '),
        lower("protocolInfo=\""@) == "protocolinfo=\""@,
        lower("duration"@) + "=\""@ == "duration=\""@,
        "duration=\""@.len() == 10,
        "duration=\""@[7] == 'n' && "duration=\""@[8] == '=' && "duration=\""@[9] == '"',
{
    reveal_strlit("protocolInfo");
    reveal_strlit("=\"");
    reveal_strlit("protocolinfo=\"");
    reveal_strlit("protocolInfo=\"");
    reveal_strlit("duration");
    reveal_strlit("duration=\"");
    assert(lower("protocolInfo"@) + "=\""@ =~= "protocolinfo=\""@);
    assert(lower("protocolInfo=\""@) =~= "protocolinfo=\""@);
    assert(lower("duration"@) + "=\""@ =~= "duration=\""@);
}

proof fn lemma_attribute_found(item: QueueItem)
    ensures
        find_from(lower(didl_text(item)), "protocolinfo=\""@, 0) == Some(
            (before_stream(item) + stream_tag()).len() as int,
        ),
{
    let q = before_stream(item) + stream_tag();
    let rest = attribute_part(item);
    let d = didl_text(item);
    let needle = "protocolinfo=\""@;
    let low = lower(d);
    lemma_needle();
    lemma_split_at_stream(item);
    lemma_stream_shape(item);
    assert(d =~= q + rest);
    let at = q.len() as int;
    let name = "protocolInfo=\""@;
    assert(low.subrange(at, at + 14) =~= needle) by {
        assert(name.len() == 14) by {
            assert(lower(name).len() == name.len());
        }
        assert forall|i: int| 0 <= i < 14 implies #[trigger] low[at + i] == needle[i] by {
            assert(d[at + i] == name[i]);
            assert(lower(name)[i] == lower_char(name[i]));
        }
    }
    assert(matches_at(low, needle, at));
    lemma_before_stream(item, 'o');
    lemma_unquoted(stream_tag(), 'o');
    lemma_join_values(before_stream(item), stream_tag(), 'o');
    lemma_find_from(low, needle, 0);
    assert forall|j: int| 0 <= j < at implies !matches_at(low, needle, j) by {
        if matches_at(low, needle, j) {
            if j + 14 <= at {
                assert(lower(q).subrange(j, j + 14) =~= low.subrange(j, j + 14));
                lemma_match_is_value(q, needle, j, 'o');
            } else {
                assert(d[at - 1] == ' ');
                assert(low.subrange(j, j + 14)[at - 1 - j] == low[at - 1]);
                assert(needle[at - 1 - j] == ' ');
            }
        }
    }
}

/// Whether a content type keeps to its place between the colons of a
/// protocol: it has no colon and no quote of its own, and nothing in it stands
/// for another sign.
pub open spec fn type_like(ct: Seq<char>) -> bool {
    &&& free_of(ct, ':')
    &&& free_of(ct, '"')
    &&& decoded(protocol_text(ct)) == protocol_text(ct)
}

proof fn lemma_protocol_signs(ct: Seq<char>)
    requires
        type_like(ct),
    ensures
        free_of(protocol_text(ct), '"'),
        crate::text::split(protocol_text(ct), ':').len() == 4,
        crate::text::split(protocol_text(ct), ':')[2] == ct,
{
    reveal_strlit("http-get:*:");
    reveal_strlit(":*");
    let h = seq!['h', 't', 't', 'p', '-', 'g', 'e', 't'];
    let s = seq!['*'];
    let c = seq![':'];
    assert(protocol_text(ct) =~= h + c + (s + c + (ct + c + s)));
    lemma_split_first(h, s + c + (ct + c + s));
    lemma_split_first(s, ct + c + s);
    lemma_split_first(ct, s);
    lemma_split_none(s);
}

proof fn lemma_split_first(a: Seq<char>, rest: Seq<char>)
    requires
        free_of(a, ':'),
    ensures
        crate::text::split(a + seq![':'] + rest, ':') == seq![a] + crate::text::split(rest, ':'),
{
    let s = a + seq![':'] + rest;
    assert forall|i: int| 0 <= i < a.len() implies #[trigger] s[i] != ':' by {
        assert(s[i] == a[i]);
    }
    assert(s[a.len() as int] == ':');
    lemma_index_jump(s, ':', 0, a.len() as int);
    assert(s.take(a.len() as int) =~= a);
    assert(s.skip(a.len() as int + 1) =~= rest);
}

proof fn lemma_split_none(a: Seq<char>)
    requires
        free_of(a, ':'),
    ensures
        crate::text::split(a, ':') == seq![a],
{
    lemma_index_of(a, ':', 0);
}

proof fn lemma_protocol_read(item: QueueItem)
    requires
        type_like(item.content_type@),
    ensures
        crate::mediarenderer::xml::value_of_attr(didl_text(item), "protocolInfo"@) == Some(
            protocol_text(item.content_type@),
        ),
{
    let q = before_stream(item) + stream_tag();
    let d = didl_text(item);
    let low = lower(d);
    let v = protocol_text(item.content_type@);
    lemma_needle();
    lemma_attribute_found(item);
    lemma_split_at_stream(item);
    lemma_stream_shape(item);
    lemma_protocol_signs(item.content_type@);
    let start = q.len() as int + 14;
    let end = start + v.len();
    assert("protocolInfo=\""@.len() == 14) by {
        assert(lower("protocolInfo=\""@).len() == "protocolInfo=\""@.len());
    }
    assert(d =~= q + attribute_part(item));
    assert(d.subrange(start, end) =~= v);
    assert forall|i: int| start <= i < end implies #[trigger] low[i] != '"' by {
        assert(d[i] == v[i - start]);
        lemma_lower_keeps(d[i]);
    }
    assert(d[end] == '"');
    assert(low[end] == '"');
    lemma_index_jump(low, '"', start, end);
}

proof fn lemma_no_duration(item: QueueItem)
    requires
        type_like(item.content_type@),
    ensures
        crate::mediarenderer::xml::value_of_attr(didl_text(item), "duration"@) is None,
{
    let d = didl_text(item);
    let needle = "duration=\""@;
    lemma_needle();
    lemma_split_at_stream(item);
    lemma_stream_values(item);
    lemma_before_stream(item, 'n');
    assert(stream_part(item)[0] == '<') by {
        lemma_stream_shape(item);
    }
    lemma_join_values(before_stream(item), stream_part(item), 'n');
    lemma_find_from(lower(d), needle, 0);
    if let Some(j) = find_from(lower(d), needle, 0) {
        lemma_match_is_value(d, needle, j, 'n');
    }
}

proof fn lemma_stream_values(item: QueueItem)
    requires
        type_like(item.content_type@),
    ensures
        no_value(stream_part(item), 'n'),
{
    let a = "<res protocolInfo=\"http-get:*:"@;
    let ct = item.content_type@;
    let b = ":*\">"@;
    let u = encoded(item.stream_url@);
    let e = "</res></item></DIDL-Lite>"@;
    reveal_strlit("<res protocolInfo=\"http-get:*:");
    reveal_strlit(":*\">");
    reveal_strlit("</res></item></DIDL-Lite>");
    assert(no_value_from(a, 'n', 0)) by {
        reveal_with_fuel(no_value_from, 40);
    }
    lemma_no_value(a, 'n');
    assert(no_value_from(b, 'n', 0)) by {
        reveal_with_fuel(no_value_from, 5);
    }
    lemma_no_value(b, 'n');
    lemma_unquoted(ct, 'n');
    lemma_encoded_free(item.stream_url@);
    lemma_unquoted(u, 'n');
    lemma_unquoted(e, 'n');
    assert(a.last() == ':');
    lemma_join_values(a, ct, 'n');
    lemma_join_values(a + ct, b, 'n');
    assert((a + ct + b).last() == '>');
    lemma_join_values(a + ct + b, u, 'n');
    lemma_join_values(a + ct + b + u, e, 'n');
}

/// The kind of an item comes back too, whatever the address that it is pushed
/// with: what was written as a video is taken for one, and what was not is not.
pub proof fn lemma_kind_comes_back(item: QueueItem, uri: Seq<char>)
    ensures
        crate::mediarenderer::xml::is_video_item(didl_meta(didl_text(item)), uri)
            == item.is_video,
{
    lemma_metadata_comes_back(item);
    lemma_class_kind();
}

/// And so does its content type, without the blanks around it. The length is
/// not written.
pub proof fn lemma_content_type_comes_back(item: QueueItem)
    requires
        type_like(item.content_type@),
    ensures
        ({
            let m = didl_meta(didl_text(item));
            let ct = trimmed(item.content_type@);
            &&& m.mime == (if ct.len() == 0 || ct == "*"@ {
                None
            } else {
                Some(ct)
            })
            &&& m.duration_secs is None
        }),
{
    lemma_protocol_read(item);
    lemma_protocol_signs(item.content_type@);
    lemma_no_duration(item);
}

proof fn lemma_class_kind()
    ensures
        crate::text::contains(class_of(true), "videoItem"@),
        !crate::text::contains(class_of(false), "videoItem"@),
        crate::text::contains(class_of(false), "audioItem"@),
{
    reveal_strlit("object.item.videoItem");
    reveal_strlit("object.item.audioItem.musicTrack");
    reveal_strlit("videoItem");
    reveal_strlit("audioItem");
    let v = class_of(true);
    let a = class_of(false);
    assert(v.subrange(12, 21) =~= "videoItem"@);
    assert(matches_at(v, "videoItem"@, 12));
    assert(a.subrange(12, 21) =~= "audioItem"@);
    assert(matches_at(a, "audioItem"@, 12));
    assert forall|i: int| !matches_at(a, "videoItem"@, i) by {
        if matches_at(a, "videoItem"@, i) {
            assert(a.subrange(i, i + 9)[0] == 'v');
            assert(a[i] == 'v');
        }
    }
}

// ---------------------------------------------------------------------------
// Elements
// ---------------------------------------------------------------------------

/// Only ASCII letters, of either case.
pub open spec fn letters(s: Seq<char>) -> bool {
    forall|i: int|
        0 <= i < s.len() ==> ('a' <= #[trigger] s[i] && s[i] <= 'z') || ('A' <= s[i] && s[i]
            <= 'Z')
}

/// What may stand before a local name: nothing, or letters and a colon.
pub open spec fn prefix_like(p: Seq<char>) -> bool {
    p.len() == 0 || (p.last() == ':' && letters(p.drop_last()))
}

pub(crate) proof fn lemma_lettered(p: Seq<char>, t: Seq<char>)
    requires
        prefix_like(p),
        letters(t),
        t.len() > 0,
    ensures
        named(p + t, lower(t)),
        free_of(p + t, '<'),
        free_of(p + t, '>'),
        (p + t)[0] != '/',
{
    let name = p + t;
    let low = lower(name);
    lemma_lower_join(p, t);
    assert forall|i: int|
        #![trigger low[i]]
        #![trigger name[i]]
        0 <= i < name.len() implies !ends_name(low[i]) && name[i] != '<' && name[i] != '>'
        && name[i] != '/' && low[i] != '!' && low[i] != '?' by {
        if i + 1 < p.len() {
            assert(name[i] == p.drop_last()[i]);
        } else if i >= p.len() {
            assert(name[i] == t[i - p.len()]);
        }
        assert(low[i] == lower_char(name[i]));
    }
    lemma_whole_name(low, 0);
    assert forall|i: int| 0 <= i < t.len() implies #[trigger] lower(t)[i] != ':' by {
        assert(lower(t)[i] == lower_char(t[i]));
    }
    if p.len() == 0 {
        assert(low =~= lower(t));
        lemma_no_colon(low, low.len() as int);
        assert(low.skip(0) =~= low);
    } else {
        assert(lower(p).last() == lower_char(p.last()));
        lemma_local(lower(p), lower(t));
    }
}

/// The text of an element is read back as it was before it was encoded,
/// whatever stands before the local name and whatever the case in which the
/// name is asked for.
pub proof fn lemma_element_read(p: Seq<char>, t: Seq<char>, s: Seq<char>, n: Seq<char>)
    requires
        prefix_like(p),
        letters(t),
        t.len() > 0,
        lower(n) == lower(t),
        trimmed(s) == s,
    ensures
        text_of_tag(
            "<"@ + p + t + ">"@ + encoded(s) + "</"@ + p + t + ">"@,
            n,
        ) == Some(s),
{
    let x = "<"@ + p + t + ">"@ + encoded(s) + "</"@ + p + t + ">"@;
    let y = seq!['<'] + (p + t) + seq!['>'] + encoded(s) + ("</"@ + (p + t) + ">"@)
        + Seq::<char>::empty();
    reveal_strlit("<");
    reveal_strlit(">");
    assert("<"@ =~= seq!['<']);
    assert(">"@ =~= seq!['>']);
    assert(x =~= y);
    lemma_lettered(p, t);
    lemma_encoded_free(s);
    lemma_hit(p + t, encoded(s), Seq::empty(), lower(t));
    lemma_text_back(s);
}

// ---------------------------------------------------------------------------
// The device
// ---------------------------------------------------------------------------

/// A line as the search for an element sees it.
proof fn lemma_line(name: Seq<char>, content: Seq<char>, x: Seq<char>)
    ensures
        line_text(name, content) + x == seq!['<'] + name + seq!['>'] + content + ("</"@ + name
            + ">"@) + (seq!['\n'] + x),
{
    reveal_strlit("<");
    reveal_strlit(">");
    reveal_strlit(">\n");
    assert("<"@ =~= seq!['<']);
    assert(">"@ =~= seq!['>']);
    assert(">\n"@ =~= seq!['>', '\n']);
    let a = seq!['<'] + name + seq!['>'] + content;
    assert(line_text(name, content) =~= a + ("</"@ + name + seq!['>', '\n']));
    assert("</"@ + name + seq!['>', '\n'] + x =~= "</"@ + name + ">"@ + (seq!['\n'] + x));
    assert(line_text(name, content) + x =~= a + ("</"@ + name + seq!['>', '\n'] + x));
}

/// The line with the element that is searched for.
proof fn lemma_line_hit(name: Seq<char>, content: Seq<char>, x: Seq<char>)
    requires
        letters(name),
        name.len() > 0,
        free_of(content, '<'),
    ensures
        found(line_text(name, content) + x, lower(name)) == Some(decoded(trimmed(content))),
{
    let none = Seq::<char>::empty();
    assert(none + name =~= name);
    lemma_lettered(none, name);
    lemma_line(name, content, x);
    lemma_hit(name, content, seq!['\n'] + x, lower(name));
}

/// A line with another element does not matter.
proof fn lemma_line_skip(name: Seq<char>, content: Seq<char>, x: Seq<char>, n: Seq<char>)
    requires
        letters(name),
        name.len() > 0,
        free_of(content, '<'),
        n.len() > 0,
        lower_char(name[0]) != n[0],
    ensures
        found(line_text(name, content) + x, n) == found(x, n),
{
    let none = Seq::<char>::empty();
    assert(none + name =~= name);
    lemma_lettered(none, name);
    lemma_line(name, content, x);
    assert(lower(name)[0] == lower_char(name[0]));
    lemma_skip_element(name, lower(name), content, seq!['\n'] + x, n);
    lemma_skip_text(seq!['\n'], x, n);
}

/// A tag of a name without a colon that begins otherwise than what is searched
/// for.
proof fn lemma_plain_tag(name: Seq<char>, rest: Seq<char>, x: Seq<char>, n: Seq<char>)
    requires
        letters(name),
        name.len() > 0,
        rest.len() > 0 ==> rest[0] == ' ',
        free_of(rest, '<'),
        n.len() > 0,
        lower_char(name[0]) != n[0],
    ensures
        found(seq!['<'] + (name + rest) + seq!['>'] + x, n) == found(x, n),
{
    let none = Seq::<char>::empty();
    assert(none + name =~= name);
    lemma_lettered(none, name);
    let body = name + rest;
    assert forall|i: int| 0 <= i < body.len() implies #[trigger] body[i] != '<' by {
        if i < name.len() {
            assert(body[i] == name[i]);
        } else {
            assert(body[i] == rest[i - name.len()]);
        }
    }
    lemma_lower_join(name, rest);
    if rest.len() == 0 {
        assert(body =~= name);
        assert(lower(name).take(name.len() as int) =~= lower(name));
    } else {
        assert(lower(rest)[0] == ' ');
        lemma_name_stops(lower(name), lower(rest), 0);
        assert(tag_name(body) =~= lower(name));
    }
    assert forall|i: int| 0 <= i < name.len() implies #[trigger] lower(name)[i] != ':' by {
        assert(lower(name)[i] == lower_char(name[i]));
    }
    lemma_no_colon(lower(name), name.len() as int);
    assert(lower(name).skip(0) =~= lower(name));
    assert(lower(name)[0] == lower_char(name[0]));
    assert(body[0] == name[0]);
    lemma_skip_tag(body, x, n);
}

proof fn lemma_head_skip(x: Seq<char>, n: Seq<char>)
    requires
        n.len() > 0,
        n[0] == 'f' || n[0] == 'u',
    ensures
        found(device_head() + x, n) == found(x, n),
{
    reveal_strlit("<?xml version=\"1.0\" encoding=\"utf-8\"?>\n");
    reveal_strlit("<root xmlns=\"urn:schemas-upnp-org:device-1-0\">\n");
    reveal_strlit("<specVersion><major>1</major><minor>0</minor></specVersion>\n");
    reveal_strlit("<device>\n");
    let nl = seq!['\n'];
    let a = "<?xml version=\"1.0\" encoding=\"utf-8\"?>\n"@;
    let b = "<root xmlns=\"urn:schemas-upnp-org:device-1-0\">\n"@;
    let c = "<specVersion><major>1</major><minor>0</minor></specVersion>\n"@;
    let d = "<device>\n"@;
    let none = Seq::<char>::empty();
    // The first line.
    let xml = a.subrange(1, a.len() - 2);
    let x1 = b + (c + (d + x));
    assert(device_head() + x =~= a + x1);
    assert(a + x1 =~= seq!['<'] + xml + seq!['>'] + (nl + x1));
    assert(free_of(xml, '<'));
    lemma_skip_tag(xml, nl + x1, n);
    lemma_skip_text(nl, x1, n);
    // The root.
    let root = seq!['r', 'o', 'o', 't'];
    let attr = b.subrange(5, b.len() - 2);
    let x2 = c + (d + x);
    assert(x1 =~= seq!['<'] + (root + attr) + seq!['>'] + (nl + x2));
    assert(free_of(attr, '<'));
    lemma_plain_tag(root, attr, nl + x2, n);
    lemma_skip_text(nl, x2, n);
    // The version.
    lemma_version_skip(d + x, n);
    // The device.
    let device = seq!['d', 'e', 'v', 'i', 'c', 'e'];
    assert(d + x =~= seq!['<'] + (device + none) + seq!['>'] + (nl + x));
    lemma_plain_tag(device, none, nl + x, n);
    lemma_skip_text(nl, x, n);
}

proof fn lemma_version_skip(x: Seq<char>, n: Seq<char>)
    requires
        n.len() > 0,
        n[0] == 'f' || n[0] == 'u',
    ensures
        found("<specVersion><major>1</major><minor>0</minor></specVersion>\n"@ + x, n) == found(
            x,
            n,
        ),
{
    reveal_strlit("<specVersion><major>1</major><minor>0</minor></specVersion>\n");
    reveal_strlit("</");
    reveal_strlit(">");
    let c = "<specVersion><major>1</major><minor>0</minor></specVersion>\n"@;
    let none = Seq::<char>::empty();
    let spec_version = seq!['s', 'p', 'e', 'c', 'V', 'e', 'r', 's', 'i', 'o', 'n'];
    let major = seq!['m', 'a', 'j', 'o', 'r'];
    let minor = seq!['m', 'i', 'n', 'o', 'r'];
    let over = seq!['/'] + spec_version;
    let nl = seq!['\n'];
    let end = seq!['<'] + over + seq!['>'] + (nl + x);
    let second = seq!['<'] + minor + seq!['>'] + seq!['0'] + ("</"@ + minor + ">"@) + end;
    let first = seq!['<'] + major + seq!['>'] + seq!['1'] + ("</"@ + major + ">"@) + second;
    assert("</"@ =~= seq!['<', '/']);
    assert(">"@ =~= seq!['>']);
    assert(c + x =~= seq!['<'] + (spec_version + none) + seq!['>'] + first);
    lemma_plain_tag(spec_version, none, first, n);
    assert(none + major =~= major);
    assert(none + minor =~= minor);
    lemma_lettered(none, major);
    lemma_lettered(none, minor);
    assert(lower(major)[0] == 'm');
    assert(lower(minor)[0] == 'm');
    lemma_skip_element(major, lower(major), seq!['1'], second, n);
    lemma_skip_element(minor, lower(minor), seq!['0'], end, n);
    lemma_skip_tag(over, nl + x, n);
    lemma_skip_text(nl, x, n);
}

proof fn lemma_line_names()
    ensures
        letters("deviceType"@) && "deviceType"@.len() > 0 && "deviceType"@[0] == 'd',
        letters("friendlyName"@) && "friendlyName"@.len() > 0 && "friendlyName"@[0] == 'f',
        letters("manufacturer"@) && "manufacturer"@.len() > 0 && "manufacturer"@[0] == 'm',
        letters("manufacturerURL"@) && "manufacturerURL"@.len() > 0 && "manufacturerURL"@[0] == 'm',
        letters("UDN"@) && "UDN"@.len() > 0 && "UDN"@[0] == 'U',
{
    reveal_strlit("deviceType");
    reveal_strlit("friendlyName");
    reveal_strlit("manufacturer");
    reveal_strlit("manufacturerURL");
    reveal_strlit("UDN");
}

proof fn lemma_model_names()
    ensures
        letters("modelDescription"@) && "modelDescription"@.len() > 0 && "modelDescription"@[0]
            == 'm',
        letters("modelName"@) && "modelName"@.len() > 0 && "modelName"@[0] == 'm',
        letters("modelNumber"@) && "modelNumber"@.len() > 0 && "modelNumber"@[0] == 'm',
        letters("modelURL"@) && "modelURL"@.len() > 0 && "modelURL"@[0] == 'm',
{
    reveal_strlit("modelDescription");
    reveal_strlit("modelName");
    reveal_strlit("modelNumber");
    reveal_strlit("modelURL");
}

proof fn lemma_line_contents()
    ensures
        free_of("urn:schemas-upnp-org:device:MediaRenderer:1"@, '<'),
        free_of("tsirysndr"@, '<'),
        free_of(HOME@, '<'),
        free_of("fin terminal media player — rockbox-playback audio, mpv video"@, '<'),
        free_of("fin"@, '<'),
        free_of(VERSION@, '<'),
{
    reveal_strlit("urn:schemas-upnp-org:device:MediaRenderer:1");
    reveal_strlit("tsirysndr");
    reveal_strlit("https://github.com/tsirysndr/fin");
    reveal_strlit("fin terminal media player — rockbox-playback audio, mpv video");
    reveal_strlit("fin");
    reveal_strlit("0.3.1");
}

/// Whether a UUID is written without blanks and without the signs that a
/// document gives a meaning.
pub open spec fn uuid_like(uuid: Seq<char>) -> bool {
    &&& free_of(uuid, '&')
    &&& free_of(uuid, '<')
    &&& forall|i: int| 0 <= i < uuid.len() ==> !is_space(#[trigger] uuid[i])
}

/// Whoever reads the description of the device finds the name and the id that
/// it was written with.
pub proof fn lemma_device_read(name: Seq<char>, uuid: Seq<char>)
    requires
        trimmed(name) == name,
        uuid_like(uuid),
    ensures
        text_of_tag(device_text(name, uuid), "friendlyName"@) == Some(name),
        text_of_tag(device_text(name, uuid), "UDN"@) == Some("uuid:"@ + uuid),
{
    let f = lower("friendlyName"@);
    let u = lower("UDN"@);
    let kind = "urn:schemas-upnp-org:device:MediaRenderer:1"@;
    let about = "fin terminal media player — rockbox-playback audio, mpv video"@;
    let id = "uuid:"@ + uuid;
    let l8 = line_text("UDN"@, id) + DEVICE_TAIL@;
    let l7 = line_text("modelURL"@, HOME@) + l8;
    let l6 = line_text("modelNumber"@, VERSION@) + l7;
    let l5 = line_text("modelName"@, "fin"@) + l6;
    let l4 = line_text("modelDescription"@, about) + l5;
    let l3 = line_text("manufacturerURL"@, HOME@) + l4;
    let l2 = line_text("manufacturer"@, "tsirysndr"@) + l3;
    let l1 = line_text("friendlyName"@, encoded(name)) + l2;
    lemma_line_names();
    lemma_model_names();
    lemma_line_contents();
    lemma_encoded_free(name);
    assert(f[0] == lower_char("friendlyName"@[0]));
    assert(u[0] == lower_char("UDN"@[0]));
    lemma_head_skip(line_text("deviceType"@, kind) + l1, f);
    lemma_line_skip("deviceType"@, kind, l1, f);
    lemma_line_hit("friendlyName"@, encoded(name), l2);
    lemma_text_back(name);
    lemma_head_skip(line_text("deviceType"@, kind) + l1, u);
    lemma_line_skip("deviceType"@, kind, l1, u);
    lemma_line_skip("friendlyName"@, encoded(name), l2, u);
    lemma_line_skip("manufacturer"@, "tsirysndr"@, l3, u);
    lemma_line_skip("manufacturerURL"@, HOME@, l4, u);
    lemma_line_skip("modelDescription"@, about, l5, u);
    lemma_line_skip("modelName"@, "fin"@, l6, u);
    lemma_line_skip("modelNumber"@, VERSION@, l7, u);
    lemma_line_skip("modelURL"@, HOME@, l8, u);
    lemma_udn(uuid);
    lemma_line_hit("UDN"@, id, DEVICE_TAIL@);
}

proof fn lemma_udn(uuid: Seq<char>)
    requires
        uuid_like(uuid),
    ensures
        free_of("uuid:"@ + uuid, '<'),
        decoded(trimmed("uuid:"@ + uuid)) == "uuid:"@ + uuid,
{
    reveal_strlit("uuid:");
    let id = "uuid:"@ + uuid;
    assert forall|i: int| 0 <= i < id.len() implies #[trigger] id[i] != '<' && id[i] != '&'
        && !is_space(id[i]) by {
        if i >= 5 {
            assert(id[i] == uuid[i - 5]);
        }
    }
    assert(!is_space(id[0]));
    assert(!is_space(id[id.len() - 1]));
    assert(trim_start(id) == id);
    assert(trimmed(id) == id);
    lemma_decode_plain(id);
}

} // verus!
