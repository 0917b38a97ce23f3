//! Text as sequences of characters: searching, trimming, splitting, decimal
//! numbers. Every function speaks of the `Seq<char>` that a string holds.

use vstd::prelude::*;
use vstd::slice::slice_subrange;

verus! {

/// `String::push` of std appends one character.
pub assume_specification[ String::push ](s: &mut String, c: char)
    ensures
        final(s)@ == old(s)@.push(c),
;

/// `String::push_str` of std appends a whole string slice.
pub assume_specification[ String::push_str ](s: &mut String, t: &str)
    ensures
        final(s)@ == old(s)@ + t@,
;

/// The characters that an optional string holds.
pub open spec fn opt_view(o: Option<String>) -> Option<Seq<char>> {
    match o {
        Some(s) => Some(s@),
        None => None,
    }
}

/// A string's characters as a vector.
pub fn chars(s: &str) -> (v: Vec<char>)
    ensures
        v@ == s@,
{
    let mut v: Vec<char> = Vec::new();
    for c in it: s.chars()
        invariant
            v@ == s@.take(it.index() as int),
            it.seq() == s@,
    {
        proof {
            assert(s@.take(it.index() as int + 1) =~= s@.take(it.index() as int).push(c));
        }
        v.push(c);
    }
    proof {
        assert(s@.take(s@.len() as int) =~= s@);
    }
    v
}

/// The string that holds the given characters.
pub fn from_chars(v: &[char]) -> (s: String)
    ensures
        s@ == v@,
{
    let mut s: String = String::new();
    let mut i: usize = 0;
    while i < v.len()
        invariant
            i <= v@.len(),
            s@ == v@.take(i as int),
        decreases v@.len() - i,
    {
        proof {
            assert(v@.take(i as int + 1) =~= v@.take(i as int).push(v@[i as int]));
        }
        s.push(v[i]);
        i += 1;
    }
    proof {
        assert(v@.take(i as int) =~= v@);
    }
    s
}

/// Whether two runs of characters are the same.
pub fn eq_chars(a: &[char], b: &[char]) -> (r: bool)
    ensures
        r == (a@ == b@),
{
    if a.len() != b.len() {
        return false;
    }
    let mut i: usize = 0;
    while i < a.len()
        invariant
            i <= a@.len(),
            a@.len() == b@.len(),
            forall|k: int| 0 <= k < i ==> a@[k] == b@[k],
        decreases a@.len() - i,
    {
        if a[i] != b[i] {
            return false;
        }
        i += 1;
    }
    proof {
        assert(a@ =~= b@);
    }
    true
}

/// Whether two strings are the same.
pub fn str_eq(a: &str, b: &str) -> (r: bool)
    ensures
        r == (a@ == b@),
{
    let x: Vec<char> = chars(a);
    let y: Vec<char> = chars(b);
    eq_chars(x.as_slice(), y.as_slice())
}

/// The pattern `p` stands in `s` at position `i`.
pub open spec fn matches_at(s: Seq<char>, p: Seq<char>, i: int) -> bool {
    0 <= i && i + p.len() <= s.len() && s.subrange(i, i + p.len()) == p
}

/// A hexadecimal digit in lower case.
pub open spec fn is_hex(c: char) -> bool {
    ('0' <= c <= '9') || ('a' <= c <= 'f')
}

/// `s` begins with `p`.
pub open spec fn starts_with(s: Seq<char>, p: Seq<char>) -> bool {
    matches_at(s, p, 0)
}

/// `p` occurs somewhere in `s`.
pub open spec fn contains(s: Seq<char>, p: Seq<char>) -> bool {
    exists|i: int| matches_at(s, p, i)
}

/// The first position at or behind `from` where `p` stands in `s`.
pub open spec fn find_from(s: Seq<char>, p: Seq<char>, from: int) -> Option<int>
    decreases s.len() + 1 - from,
{
    if from < 0 || from + p.len() > s.len() {
        None
    } else if matches_at(s, p, from) {
        Some(from)
    } else {
        find_from(s, p, from + 1)
    }
}

/// What `find_from` promises: the position found is a match, and none lies
/// before it.
pub proof fn lemma_find_from(s: Seq<char>, p: Seq<char>, from: int)
    requires
        0 <= from,
    ensures
        match find_from(s, p, from) {
            Some(i) => from <= i && matches_at(s, p, i) && forall|j: int|
                from <= j < i ==> !matches_at(s, p, j),
            None => forall|j: int| from <= j ==> !matches_at(s, p, j),
        },
    decreases s.len() + 1 - from,
{
    if from + p.len() <= s.len() && !matches_at(s, p, from) {
        lemma_find_from(s, p, from + 1);
    }
}

/// Whether `p` stands in `s` at position `i`.
pub fn match_at(s: &[char], p: &[char], i: usize) -> (r: bool)
    ensures
        r == matches_at(s@, p@, i as int),
{
    if i > s.len() || p.len() > s.len() - i {
        return false;
    }
    let r: bool = eq_chars(slice_subrange(s, i, i + p.len()), p);
    r
}

/// Finds the first match of `p` at or behind `from`.
pub fn find(s: &[char], p: &[char], from: usize) -> (r: Option<usize>)
    ensures
        match r {
            Some(i) => find_from(s@, p@, from as int) == Some(i as int) && from <= i && i
                + p@.len() <= s@.len(),
            None => find_from(s@, p@, from as int) is None,
        },
{
    let mut i: usize = from;
    while i <= s.len() && p.len() <= s.len() - i
        invariant
            from <= i,
            find_from(s@, p@, from as int) == find_from(s@, p@, i as int),
        decreases s@.len() + 1 - i,
    {
        if match_at(s, p, i) {
            return Some(i);
        }
        proof {
            assert(p@.len() == 0 ==> s@.subrange(i as int, i as int) =~= p@);
        }
        i += 1;
    }
    None
}

/// Whether `p` occurs in `s`.
pub fn has(s: &str, p: &str) -> (r: bool)
    ensures
        r == contains(s@, p@),
{
    let x: Vec<char> = chars(s);
    let y: Vec<char> = chars(p);
    proof {
        lemma_find_from(s@, p@, 0);
    }
    find(x.as_slice(), y.as_slice(), 0).is_some()
}

/// Whether `s` begins with `p`.
pub fn begins(s: &str, p: &str) -> (r: bool)
    ensures
        r == starts_with(s@, p@),
{
    let x: Vec<char> = chars(s);
    let y: Vec<char> = chars(p);
    match_at(x.as_slice(), y.as_slice(), 0)
}

/// The first position at or behind `from` whose character is `c`.
pub open spec fn index_of(s: Seq<char>, c: char, from: int) -> Option<int>
    decreases s.len() - from,
{
    if from < 0 || from >= s.len() {
        None
    } else if s[from] == c {
        Some(from)
    } else {
        index_of(s, c, from + 1)
    }
}

/// What `index_of` promises.
pub proof fn lemma_index_of(s: Seq<char>, c: char, from: int)
    requires
        0 <= from,
    ensures
        match index_of(s, c, from) {
            Some(i) => from <= i < s.len() && s[i] == c && forall|j: int|
                from <= j < i ==> s[j] != c,
            None => forall|j: int| from <= j < s.len() ==> s[j] != c,
        },
    decreases s.len() - from,
{
    if from < s.len() && s[from] != c {
        lemma_index_of(s, c, from + 1);
    }
}

/// Finds the first `c` at or behind `from`.
pub fn find_char(s: &[char], c: char, from: usize) -> (r: Option<usize>)
    ensures
        match r {
            Some(i) => index_of(s@, c, from as int) == Some(i as int) && from <= i < s@.len()
                && s@[i as int] == c,
            None => index_of(s@, c, from as int) is None,
        },
{
    let mut i: usize = from;
    while i < s.len()
        invariant
            from <= i,
            index_of(s@, c, from as int) == index_of(s@, c, i as int),
        decreases s@.len() - i,
    {
        if s[i] == c {
            return Some(i);
        }
        i += 1;
    }
    None
}

/// The position just behind the last `c` before `end`, or 0.
pub open spec fn after_last(s: Seq<char>, c: char, end: int) -> int
    decreases end,
{
    if end <= 0 {
        0
    } else if s[end - 1] == c {
        end
    } else {
        after_last(s, c, end - 1)
    }
}

/// Finds the position just behind the last `c` of `s`, or 0.
pub fn find_after_last(s: &[char], c: char) -> (r: usize)
    ensures
        r == after_last(s@, c, s@.len() as int),
        r <= s@.len(),
        r > 0 ==> s@[r - 1] == c,
{
    let mut i: usize = s.len();
    while i > 0
        invariant
            i <= s@.len(),
            after_last(s@, c, s@.len() as int) == after_last(s@, c, i as int),
        decreases i,
    {
        if s[i - 1] == c {
            return i;
        }
        i -= 1;
    }
    0
}

/// The characters with Unicode's White_Space property.
pub open spec fn is_space(c: char) -> bool {
    let n: int = c as int;
    ||| 0x09 <= n <= 0x0d
    ||| n == 0x20
    ||| n == 0x85
    ||| n == 0xa0
    ||| n == 0x1680
    ||| 0x2000 <= n <= 0x200a
    ||| n == 0x2028
    ||| n == 0x2029
    ||| n == 0x202f
    ||| n == 0x205f
    ||| n == 0x3000
}

/// Whether `c` is white space.
pub fn space(c: char) -> (r: bool)
    ensures
        r == is_space(c),
{
    let n: u32 = c as u32;
    (0x09 <= n && n <= 0x0d) || n == 0x20 || n == 0x85 || n == 0xa0 || n == 0x1680 || (0x2000 <= n
        && n <= 0x200a) || n == 0x2028 || n == 0x2029 || n == 0x202f || n == 0x205f || n == 0x3000
}

/// `s` without the white space at its front.
pub open spec fn trim_start(s: Seq<char>) -> Seq<char>
    decreases s.len(),
{
    if s.len() > 0 && is_space(s[0]) {
        trim_start(s.skip(1))
    } else {
        s
    }
}

/// `s` without the white space at its back.
pub open spec fn trim_end(s: Seq<char>) -> Seq<char>
    decreases s.len(),
{
    if s.len() > 0 && is_space(s.last()) {
        trim_end(s.drop_last())
    } else {
        s
    }
}

/// `s` without the white space at either end.
pub open spec fn trimmed(s: Seq<char>) -> Seq<char> {
    trim_end(trim_start(s))
}

/// Cuts the white space at either end.
pub fn trim<'a>(s: &'a [char]) -> (r: &'a [char])
    ensures
        r@ == trimmed(s@),
{
    let mut a: usize = 0;
    proof {
        assert(s@.skip(0) =~= s@);
    }
    while a < s.len() && space(s[a])
        invariant
            a <= s@.len(),
            trim_start(s@) == trim_start(s@.skip(a as int)),
        decreases s@.len() - a,
    {
        proof {
            assert(s@.skip(a as int).skip(1) =~= s@.skip(a as int + 1));
        }
        a += 1;
    }
    proof {
        assert(trim_start(s@) =~= s@.skip(a as int));
    }
    let mut b: usize = s.len();
    proof {
        assert(s@.subrange(a as int, b as int) =~= s@.skip(a as int));
    }
    while b > a && space(s[b - 1])
        invariant
            a <= b <= s@.len(),
            trim_end(trim_start(s@)) == trim_end(s@.subrange(a as int, b as int)),
        decreases b,
    {
        proof {
            assert(s@.subrange(a as int, b as int).drop_last() =~= s@.subrange(
                a as int,
                b as int - 1,
            ));
        }
        b -= 1;
    }
    slice_subrange(s, a, b)
}

/// `s` without any run of `c` at its back.
pub open spec fn trim_end_char(s: Seq<char>, c: char) -> Seq<char>
    decreases s.len(),
{
    if s.len() > 0 && s.last() == c {
        trim_end_char(s.drop_last(), c)
    } else {
        s
    }
}

/// Cuts every `c` at the back.
pub fn cut_end_char<'a>(s: &'a [char], c: char) -> (r: &'a [char])
    ensures
        r@ == trim_end_char(s@, c),
{
    let mut b: usize = s.len();
    proof {
        assert(s@.subrange(0, b as int) =~= s@);
    }
    while b > 0 && s[b - 1] == c
        invariant
            b <= s@.len(),
            trim_end_char(s@, c) == trim_end_char(s@.subrange(0, b as int), c),
        decreases b,
    {
        proof {
            assert(s@.subrange(0, b as int).drop_last() =~= s@.subrange(0, b as int - 1));
        }
        b -= 1;
    }
    slice_subrange(s, 0, b)
}

/// The ASCII lower case of a character.
pub open spec fn lower_char(c: char) -> char {
    if 'A' <= c <= 'Z' {
        (c as int + 32) as char
    } else {
        c
    }
}

/// The ASCII lower case of a text.
pub open spec fn lower(s: Seq<char>) -> Seq<char> {
    s.map_values(|c: char| lower_char(c))
}

/// Lowers one ASCII letter.
pub fn to_lower_char(c: char) -> (r: char)
    ensures
        r == lower_char(c),
{
    if 'A' <= c && c <= 'Z' {
        let n: u8 = c as u8;
        (n + 32) as char
    } else {
        c
    }
}

/// Lowers every ASCII letter.
pub fn to_lower(s: &[char]) -> (r: Vec<char>)
    ensures
        r@ == lower(s@),
{
    let mut r: Vec<char> = Vec::new();
    let mut i: usize = 0;
    while i < s.len()
        invariant
            i <= s@.len(),
            r@.len() == i,
            forall|k: int| 0 <= k < i ==> r@[k] == lower_char(s@[k]),
        decreases s@.len() - i,
    {
        r.push(to_lower_char(s[i]));
        i += 1;
    }
    proof {
        assert(r@ =~= lower(s@));
    }
    r
}

/// Whether two strings are the same up to the case of ASCII letters.
pub fn eq_ignore_case(a: &str, b: &str) -> (r: bool)
    ensures
        r == (lower(a@) == lower(b@)),
{
    let x: Vec<char> = chars(a);
    let y: Vec<char> = chars(b);
    let lx: Vec<char> = to_lower(x.as_slice());
    let ly: Vec<char> = to_lower(y.as_slice());
    eq_chars(lx.as_slice(), ly.as_slice())
}

/// The pieces of `s` between the separators `c`, empty ones included.
pub open spec fn split(s: Seq<char>, c: char) -> Seq<Seq<char>>
    decreases s.len(),
{
    match index_of(s, c, 0) {
        Some(i) => if 0 <= i < s.len() {
            seq![s.take(i)] + split(s.skip(i + 1), c)
        } else {
            seq![s]
        },
        None => seq![s],
    }
}

/// What each vector of a list holds.
pub open spec fn views(v: Seq<Vec<char>>) -> Seq<Seq<char>> {
    v.map_values(|p: Vec<char>| p@)
}

/// Copies a run of characters.
pub fn copy(s: &[char]) -> (r: Vec<char>)
    ensures
        r@ == s@,
{
    let mut r: Vec<char> = Vec::new();
    let mut i: usize = 0;
    while i < s.len()
        invariant
            i <= s@.len(),
            r@ == s@.take(i as int),
        decreases s@.len() - i,
    {
        proof {
            assert(s@.take(i as int + 1) =~= s@.take(i as int).push(s@[i as int]));
        }
        r.push(s[i]);
        i += 1;
    }
    proof {
        assert(s@.take(i as int) =~= s@);
    }
    r
}

/// Splits `s` at every `c`.
pub fn split_at_char(s: &[char], c: char) -> (r: Vec<Vec<char>>)
    ensures
        views(r@) == split(s@, c),
        r@.len() >= 1,
{
    let mut parts: Vec<Vec<char>> = Vec::new();
    let mut cur: &[char] = s;
    proof {
        assert(views(parts@) + split(cur@, c) =~= split(s@, c));
    }
    loop
        invariant
            views(parts@) + split(cur@, c) == split(s@, c),
        decreases cur@.len(),
    {
        let n: usize = cur.len();
        match find_char(cur, c, 0) {
            Some(i) => {
                let head: Vec<char> = copy(slice_subrange(cur, 0, i));
                let rest: &[char] = slice_subrange(cur, i + 1, n);
                proof {
                    assert(head@ =~= cur@.take(i as int));
                    assert(rest@ =~= cur@.skip(i as int + 1));
                    assert(views(parts@.push(head)) =~= views(parts@).push(head@));
                    assert(views(parts@).push(head@) + split(rest@, c) =~= views(parts@) + (
                    seq![head@] + split(rest@, c)));
                }
                parts.push(head);
                cur = rest;
            },
            None => {
                let last: Vec<char> = copy(cur);
                proof {
                    assert(views(parts@.push(last)) =~= views(parts@) + seq![last@]);
                }
                parts.push(last);
                return parts;
            },
        }
    }
}

/// What `String::from_utf8_lossy` of std makes of bytes.
pub uninterp spec fn utf8_lossy(bytes: Seq<u8>) -> Seq<char>;

/// Calls `String::from_utf8_lossy` of std. The claim: the text depends on the
/// bytes alone, and UTF-8 is read as what it encodes. Bytes that are no UTF-8
/// become replacement characters; how many is left unsaid.
#[verifier::external_body]
pub(crate) fn lossy(bytes: &[u8]) -> (r: String)
    ensures
        r@ == utf8_lossy(bytes@),
        vstd::utf8::valid_utf8(bytes@) ==> r@ == vstd::utf8::decode_utf8(bytes@),
{
    String::from_utf8_lossy(bytes).to_string()
}

/// Reads bytes as text; what is no UTF-8 is replaced.
pub fn text_of(bytes: &[u8]) -> (r: String)
    ensures
        r@ == utf8_lossy(bytes@),
        vstd::utf8::valid_utf8(bytes@) ==> r@ == vstd::utf8::decode_utf8(bytes@),
{
    lossy(bytes)
}

/// A line without the carriage return at its end.
pub open spec fn strip_cr(s: Seq<char>) -> Seq<char> {
    if s.len() > 0 && s.last() == '\r' {
        s.drop_last()
    } else {
        s
    }
}

/// The lines of a text. A line ends with a line feed, before which a carriage
/// return may stand; behind the last line feed nothing need follow.
pub open spec fn lines(s: Seq<char>) -> Seq<Seq<char>>
    decreases s.len(),
{
    if s.len() == 0 {
        Seq::empty()
    } else {
        match index_of(s, '\n', 0) {
            Some(i) => if 0 <= i < s.len() {
                seq![strip_cr(s.take(i))] + lines(s.skip(i + 1))
            } else {
                seq![s]
            },
            None => seq![s],
        }
    }
}

/// Splits a text into its lines.
pub fn split_lines(s: &[char]) -> (r: Vec<Vec<char>>)
    ensures
        views(r@) == lines(s@),
{
    let mut parts: Vec<Vec<char>> = Vec::new();
    let mut cur: &[char] = s;
    proof {
        assert(views(parts@) + lines(cur@) =~= lines(s@));
    }
    while cur.len() > 0
        invariant
            views(parts@) + lines(cur@) == lines(s@),
        decreases cur@.len(),
    {
        let n: usize = cur.len();
        match find_char(cur, '\n', 0) {
            Some(i) => {
                let end: usize = if i > 0 && cur[i - 1] == '\r' {
                    i - 1
                } else {
                    i
                };
                let head: Vec<char> = copy(slice_subrange(cur, 0, end));
                let rest: &[char] = slice_subrange(cur, i + 1, n);
                proof {
                    let t = cur@.take(i as int);
                    if i > 0 && cur@[i - 1] == '\r' {
                        assert(t.last() == '\r');
                        assert(head@ =~= t.drop_last());
                    } else {
                        if t.len() > 0 {
                            assert(t.last() == cur@[i - 1]);
                        }
                        assert(head@ =~= t);
                    }
                    assert(head@ == strip_cr(t));
                    assert(rest@ =~= cur@.skip(i as int + 1));
                    assert(views(parts@.push(head)) =~= views(parts@).push(head@));
                    assert(views(parts@).push(head@) + lines(rest@) =~= views(parts@) + (
                    seq![head@] + lines(rest@)));
                }
                parts.push(head);
                cur = rest;
            },
            None => {
                let last: Vec<char> = copy(cur);
                proof {
                    assert(views(parts@.push(last)) =~= views(parts@) + seq![last@]);
                }
                parts.push(last);
                return parts;
            },
        }
    }
    proof {
        assert(lines(cur@) =~= Seq::empty());
        assert(views(parts@) + Seq::<Seq<char>>::empty() =~= views(parts@));
    }
    parts
}

/// Where the word that begins at `from` ends.
pub open spec fn word_end(s: Seq<char>, from: int) -> int
    decreases s.len() - from,
{
    if from < 0 || from >= s.len() || is_space(s[from]) {
        from
    } else {
        word_end(s, from + 1)
    }
}

/// The first word of a text and what follows it. Words are parted by white
/// space.
pub open spec fn next_word(s: Seq<char>) -> Option<(Seq<char>, Seq<char>)> {
    let t = trim_start(s);
    if t.len() == 0 {
        None
    } else {
        Some((t.take(word_end(t, 0)), t.skip(word_end(t, 0))))
    }
}

/// Takes the first word off a text.
pub fn take_word<'a>(s: &'a [char]) -> (r: Option<(&'a [char], &'a [char])>)
    ensures
        match r {
            Some((w, rest)) => next_word(s@) == Some((w@, rest@)),
            None => next_word(s@) is None,
        },
{
    let mut a: usize = 0;
    proof {
        assert(s@.skip(0) =~= s@);
    }
    while a < s.len() && space(s[a])
        invariant
            a <= s@.len(),
            trim_start(s@) == trim_start(s@.skip(a as int)),
        decreases s@.len() - a,
    {
        proof {
            assert(s@.skip(a as int).skip(1) =~= s@.skip(a as int + 1));
        }
        a += 1;
    }
    let t: &'a [char] = slice_subrange(s, a, s.len());
    proof {
        assert(t@ =~= s@.skip(a as int));
        assert(trim_start(s@) =~= t@);
    }
    if t.len() == 0 {
        return None;
    }
    let mut e: usize = 0;
    while e < t.len() && !space(t[e])
        invariant
            e <= t@.len(),
            word_end(t@, 0) == word_end(t@, e as int),
        decreases t@.len() - e,
    {
        e += 1;
    }
    let w: &'a [char] = slice_subrange(t, 0, e);
    let rest: &'a [char] = slice_subrange(t, e, t.len());
    proof {
        assert(w@ =~= t@.take(e as int));
        assert(rest@ =~= t@.skip(e as int));
    }
    Some((w, rest))
}

/// What `str::to_uppercase` of std makes of a text.
pub uninterp spec fn upper_case(s: Seq<char>) -> Seq<char>;

/// The ASCII upper case of a character.
pub open spec fn upper_char(c: char) -> char {
    if 'a' <= c <= 'z' {
        (c as int - 32) as char
    } else {
        c
    }
}

/// Calls `str::to_uppercase` of std. The claim: the outcome depends on the
/// text alone, and a text of ASCII characters has its letters in upper case
/// and nothing else changed.
#[verifier::external_body]
pub(crate) fn to_upper(s: &str) -> (r: String)
    ensures
        r@ == upper_case(s@),
        (forall|i: int| 0 <= i < s@.len() ==> s@[i] as int <= 127) ==> r@ == s@.map_values(
            |c: char| upper_char(c),
        ),
{
    s.to_uppercase()
}

/// Texts one after the other, with a separator between them.
pub open spec fn joined(parts: Seq<Seq<char>>, sep: Seq<char>) -> Seq<char>
    decreases parts.len(),
{
    if parts.len() == 0 {
        Seq::empty()
    } else if parts.len() == 1 {
        parts[0]
    } else {
        joined(parts.drop_last(), sep) + sep + parts.last()
    }
}

/// What a list of strings holds.
pub open spec fn string_views(v: Seq<String>) -> Seq<Seq<char>> {
    v.map_values(|s: String| s@)
}

/// What a list of string slices holds.
pub open spec fn str_views(v: Seq<&str>) -> Seq<Seq<char>> {
    v.map_values(|s: &str| s@)
}

/// Joins strings.
pub fn join_strings(v: &[String], sep: &str) -> (r: String)
    ensures
        r@ == joined(string_views(v@), sep@),
{
    let mut r: String = String::new();
    let mut i: usize = 0;
    let ghost all = string_views(v@);
    proof {
        assert(all.take(0) =~= Seq::empty());
    }
    while i < v.len()
        invariant
            i <= v@.len(),
            all == string_views(v@),
            r@ == joined(all.take(i as int), sep@),
        decreases v@.len() - i,
    {
        proof {
            assert(all.take(i as int + 1).drop_last() =~= all.take(i as int));
            assert(all.take(i as int + 1).last() == v@[i as int]@);
            assert(all.take(i as int + 1).len() == i + 1);
        }
        if i > 0 {
            r.push_str(sep);
        }
        r.push_str(v[i].as_str());
        proof {
            assert(r@ =~= joined(all.take(i as int + 1), sep@));
        }
        i += 1;
    }
    proof {
        assert(all.take(i as int) =~= all);
    }
    r
}

/// Joins string slices.
pub fn join_strs(v: &[&str], sep: &str) -> (r: String)
    ensures
        r@ == joined(str_views(v@), sep@),
{
    let mut r: String = String::new();
    let mut i: usize = 0;
    let ghost all = str_views(v@);
    proof {
        assert(all.take(0) =~= Seq::empty());
    }
    while i < v.len()
        invariant
            i <= v@.len(),
            all == str_views(v@),
            r@ == joined(all.take(i as int), sep@),
        decreases v@.len() - i,
    {
        proof {
            assert(all.take(i as int + 1).drop_last() =~= all.take(i as int));
            assert(all.take(i as int + 1).last() == v@[i as int]@);
            assert(all.take(i as int + 1).len() == i + 1);
        }
        if i > 0 {
            r.push_str(sep);
        }
        r.push_str(v[i]);
        proof {
            assert(r@ =~= joined(all.take(i as int + 1), sep@));
        }
        i += 1;
    }
    proof {
        assert(all.take(i as int) =~= all);
    }
    r
}

/// Whether a list holds a text.
pub fn has_str(v: &[&str], s: &str) -> (r: bool)
    ensures
        r == str_views(v@).contains(s@),
{
    let mut i: usize = 0;
    while i < v.len()
        invariant
            i <= v@.len(),
            forall|j: int| 0 <= j < i ==> (#[trigger] str_views(v@)[j]) != s@,
        decreases v@.len() - i,
    {
        if str_eq(v[i], s) {
            proof {
                assert(str_views(v@)[i as int] == s@);
            }
            return true;
        }
        i += 1;
    }
    false
}

/// Whether a text has no character.
pub fn is_blank(s: &str) -> (r: bool)
    ensures
        r == (s@.len() == 0),
{
    proof {
        reveal_strlit("");
        if s@.len() == 0 {
            assert(s@ =~= ""@);
        }
    }
    str_eq(s, "")
}

proof fn lemma_trim_start_plain(s: Seq<char>)
    ensures
        trim_start(s).len() == 0 || !is_space(trim_start(s)[0]),
        trim_start(s).len() <= s.len(),
        trim_start(s) == s.skip(s.len() - trim_start(s).len()),
    decreases s.len(),
{
    if s.len() > 0 && is_space(s[0]) {
        lemma_trim_start_plain(s.skip(1));
        let t = trim_start(s);
        assert(s.skip(1).skip(s.len() - 1 - t.len()) =~= s.skip(s.len() - t.len()));
    } else {
        assert(s.skip(0) =~= s);
    }
}

proof fn lemma_trim_end_plain(s: Seq<char>)
    ensures
        trim_end(s).len() == 0 || !is_space(trim_end(s).last()),
        trim_end(s).len() <= s.len(),
        trim_end(s) == s.take(trim_end(s).len() as int),
    decreases s.len(),
{
    if s.len() > 0 && is_space(s.last()) {
        lemma_trim_end_plain(s.drop_last());
        let t = trim_end(s);
        assert(s.drop_last().take(t.len() as int) =~= s.take(t.len() as int));
    } else {
        assert(s.take(s.len() as int) =~= s);
    }
}

/// A text that was trimmed neither begins nor ends with a blank, and is a piece
/// of the text; to trim it again changes nothing.
pub proof fn lemma_trimmed(s: Seq<char>)
    ensures
        trimmed(s).len() == 0 || (!is_space(trimmed(s)[0]) && !is_space(trimmed(s).last())),
        trimmed(trimmed(s)) == trimmed(s),
        exists|a: int, b: int| 0 <= a <= b <= s.len() && trimmed(s) == #[trigger] s.subrange(a, b),
{
    let t = trim_start(s);
    lemma_trim_start_plain(s);
    lemma_trim_end_plain(t);
    let u = trimmed(s);
    if u.len() > 0 {
        assert(u[0] == t[0]);
    }
    assert(trim_start(u) == u);
    assert(trim_end(u) == u);
    let a = s.len() - t.len();
    let b = a + u.len();
    assert(u =~= s.subrange(a as int, b as int));
}

/// Large letters become small ones, and nothing else changes; to do so again
/// changes nothing.
pub proof fn lemma_lower(s: Seq<char>, i: int)
    requires
        0 <= i < s.len(),
    ensures
        lower(s).len() == s.len(),
        lower(lower(s)) == lower(s),
        'A' <= s[i] <= 'Z' ==> lower(s)[i] as int == s[i] as int + 32,
        !('A' <= s[i] <= 'Z') ==> lower(s)[i] == s[i],
{
    assert(lower(lower(s)) =~= lower(s));
}

/// The pieces of a text between the separators, put together again with the
/// separator between them, are the text; none of them holds it.
pub proof fn lemma_split_joined(s: Seq<char>, c: char)
    ensures
        split(s, c).len() > 0,
        rejoined(split(s, c), c) == s,
        forall|i: int, k: int|
            0 <= i < split(s, c).len() && 0 <= k < split(s, c)[i].len() ==> #[trigger] split(
                s,
                c,
            )[i][k] != c,
    decreases s.len(),
{
    lemma_index_of(s, c, 0);
    match index_of(s, c, 0) {
        Some(i) => {
            let rest = s.skip(i + 1);
            lemma_split_joined(rest, c);
            let parts = split(s, c);
            assert(parts =~= seq![s.take(i)] + split(rest, c));
            assert(parts.skip(1) =~= split(rest, c));
            assert(s =~= s.take(i) + seq![c] + rest);
            assert forall|j: int, k: int|
                0 <= j < parts.len() && 0 <= k < parts[j].len() implies #[trigger] parts[j][k]
                != c by {
                if j > 0 {
                    assert(parts[j] == split(rest, c)[j - 1]);
                    assert(split(rest, c)[j - 1][k] != c);
                } else {
                    assert(parts[0][k] == s[k]);
                }
            }
        },
        None => {},
    }
}

/// Pieces with a separator between them.
pub open spec fn rejoined(parts: Seq<Seq<char>>, c: char) -> Seq<char>
    decreases parts.len(),
{
    if parts.len() == 0 {
        Seq::empty()
    } else if parts.len() == 1 {
        parts[0]
    } else {
        parts[0] + seq![c] + rejoined(parts.skip(1), c)
    }
}

/// A list of one is joined to that one, and one more comes behind the separator.
pub proof fn lemma_joined(parts: Seq<Seq<char>>, sep: Seq<char>, more: Seq<char>)
    ensures
        joined(Seq::empty(), sep).len() == 0,
        joined(seq![more], sep) == more,
        parts.len() > 0 ==> joined(parts.push(more), sep) == joined(parts, sep) + sep + more,
{
    assert(parts.push(more).drop_last() =~= parts);
    assert(seq![more][0] == more);
}

/// A text begins with another where it is that one and something more, and holds
/// it where it stands between two others.
pub proof fn lemma_parts_found(a: Seq<char>, p: Seq<char>, b: Seq<char>)
    ensures
        starts_with(p + b, p),
        contains(a + p + b, p),
{
    assert((p + b).subrange(0, p.len() as int) =~= p);
    assert((a + p + b).subrange(a.len() as int, (a + p).len() as int) =~= p);
    assert(matches_at(a + p + b, p, a.len() as int));
}

/// A line that ends with a carriage return and a line feed, or with the latter
/// alone, is the text before them; the lines behind it follow.
pub proof fn lemma_lines(line: Seq<char>, rest: Seq<char>)
    requires
        forall|i: int| 0 <= i < line.len() ==> #[trigger] line[i] != '\n' && line[i] != '\r',
    ensures
        lines(line + seq!['\r', '\n'] + rest) == seq![line] + lines(rest),
        lines(line + seq!['\n'] + rest) == seq![line] + lines(rest),
        line.len() > 0 ==> lines(line) == seq![line],
        lines(Seq::empty()).len() == 0,
{
    let s = line + seq!['\r', '\n'] + rest;
    let k = line.len() as int + 1;
    lemma_index_of(s, '\n', 0);
    assert(s[k] == '\n');
    assert(s[k - 1] == '\r');
    assert forall|i: int| 0 <= i < k implies #[trigger] s[i] != '\n' by {
        if i < line.len() {
            assert(s[i] == line[i]);
        }
    }
    assert(s.take(k).last() == '\r');
    assert(s.take(k).drop_last() =~= line);
    assert(s.skip(k + 1) =~= rest);
    let t = line + seq!['\n'] + rest;
    let j = line.len() as int;
    lemma_index_of(t, '\n', 0);
    assert(t[j] == '\n');
    assert forall|i: int| 0 <= i < j implies #[trigger] t[i] != '\n' by {
        assert(t[i] == line[i]);
    }
    assert(t.take(j) =~= line);
    assert(t.skip(j + 1) =~= rest);
    if line.len() > 0 {
        assert(line.last() == line[line.len() - 1]);
    }
    assert(strip_cr(line) == line);
    lemma_index_of(line, '\n', 0);
}

proof fn lemma_word_end(w: Seq<char>, rest: Seq<char>, from: int)
    requires
        0 <= from <= w.len(),
        forall|i: int| 0 <= i < w.len() ==> !is_space(#[trigger] w[i]),
        rest.len() == 0 || is_space(rest[0]),
    ensures
        word_end(w + rest, from) == w.len(),
    decreases w.len() - from,
{
    if from < w.len() {
        assert((w + rest)[from] == w[from]);
        lemma_word_end(w, rest, from + 1);
    } else if rest.len() > 0 {
        assert((w + rest)[from] == rest[0]);
    }
}

/// The first word of a text is what stands before its first blank, and the rest
/// follows.
pub proof fn lemma_next_word(w: Seq<char>, rest: Seq<char>)
    requires
        w.len() > 0,
        forall|i: int| 0 <= i < w.len() ==> !is_space(#[trigger] w[i]),
        rest.len() == 0 || is_space(rest[0]),
    ensures
        next_word(w + rest) == Some((w, rest)),
        next_word(seq![' '] + (w + rest)) == Some((w, rest)),
        next_word(Seq::empty()) is None,
{
    let s = w + rest;
    assert(s[0] == w[0]);
    assert(trim_start(s) == s);
    lemma_word_end(w, rest, 0);
    assert(s.take(w.len() as int) =~= w);
    assert(s.skip(w.len() as int) =~= rest);
    let t = seq![' '] + s;
    assert(t[0] == ' ');
    assert(t.skip(1) =~= s);
    assert(trim_start(t) == trim_start(s));
}

/// What stands behind the last occurrence of a character has none of it.
pub proof fn lemma_after_last(s: Seq<char>, c: char, end: int)
    requires
        0 <= end <= s.len(),
    ensures
        0 <= after_last(s, c, end) <= end,
        after_last(s, c, end) > 0 ==> s[after_last(s, c, end) - 1] == c,
        forall|i: int| after_last(s, c, end) <= i < end ==> #[trigger] s[i] != c,
    decreases end,
{
    if end > 0 && s[end - 1] != c {
        lemma_after_last(s, c, end - 1);
    }
}

/// Cut at the back, a text ends with another character, and lost nothing else.
pub proof fn lemma_trim_end_char(s: Seq<char>, c: char)
    ensures
        trim_end_char(s, c).len() <= s.len(),
        trim_end_char(s, c) == s.take(trim_end_char(s, c).len() as int),
        trim_end_char(s, c).len() > 0 ==> trim_end_char(s, c).last() != c,
        forall|i: int| trim_end_char(s, c).len() <= i < s.len() ==> #[trigger] s[i] == c,
    decreases s.len(),
{
    if s.len() > 0 && s.last() == c {
        lemma_trim_end_char(s.drop_last(), c);
        let t = trim_end_char(s, c);
        assert(s.drop_last().take(t.len() as int) =~= s.take(t.len() as int));
        assert forall|i: int| t.len() <= i < s.len() implies #[trigger] s[i] == c by {
            if i < s.len() - 1 {
                assert(s.drop_last()[i] == s[i]);
            }
        }
    } else {
        assert(s.take(s.len() as int) =~= s);
    }
}

} // verus!
