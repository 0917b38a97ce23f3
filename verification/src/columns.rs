//! Text in the columns of a terminal: how wide it is, how it is cut, and how
//! it is filled up.

use vstd::prelude::*;
use vstd::slice::slice_subrange;

use crate::text::{chars, from_chars};

verus! {

/// What `UnicodeWidthStr::width` of the crate `unicode-width` says of a text.
pub uninterp spec fn text_columns(s: Seq<char>) -> nat;

/// What `UnicodeWidthChar::width` of the crate `unicode-width` says of a
/// character.
pub uninterp spec fn char_columns(c: char) -> Option<nat>;

/// Calls `UnicodeWidthStr::width`. The claim: the width depends on the text
/// alone.
#[verifier::external_body]
fn width_of(s: &str) -> (r: usize)
    ensures
        r == text_columns(s@),
{
    unicode_width::UnicodeWidthStr::width(s)
}

/// Calls `UnicodeWidthChar::width`. The claim: the width depends on the
/// character alone; a control character has none.
#[verifier::external_body]
fn width_of_char(c: char) -> (r: Option<usize>)
    ensures
        match r {
            Some(w) => char_columns(c) == Some(w as nat),
            None => char_columns(c) is None,
        },
{
    unicode_width::UnicodeWidthChar::width(c)
}

/// The columns that a text takes.
pub fn columns(s: &str) -> (r: usize)
    ensures
        r == text_columns(s@),
{
    width_of(s)
}

/// So many spaces.
pub open spec fn blanks(n: nat) -> Seq<char> {
    Seq::new(n, |i: int| ' ')
}

/// So many spaces.
pub fn spaces(n: usize) -> (r: String)
    ensures
        r@ == blanks(n as nat),
{
    let mut r: String = String::new();
    let mut i: usize = 0;
    while i < n
        invariant
            i <= n,
            r@ == blanks(i as nat),
        decreases n - i,
    {
        r.push(' ');
        i += 1;
        proof {
            assert(r@ =~= blanks(i as nat));
        }
    }
    r
}

/// How many of some widths, from the first on, go into so much room.
pub open spec fn fitting(widths: Seq<int>, room: int) -> int
    decreases widths.len(),
{
    if widths.len() == 0 || widths[0] > room {
        0
    } else {
        1 + fitting(widths.skip(1), room - widths[0])
    }
}

/// The sum of some widths.
pub open spec fn sum(widths: Seq<int>) -> int
    decreases widths.len(),
{
    if widths.len() == 0 {
        0
    } else {
        widths[0] + sum(widths.skip(1))
    }
}

/// What fits, fits: the widths that were counted take no more than the room,
/// and the next one would.
pub proof fn lemma_fitting(widths: Seq<int>, room: int)
    requires
        room >= 0,
        forall|i: int| 0 <= i < widths.len() ==> #[trigger] widths[i] >= 0,
    ensures
        0 <= fitting(widths, room) <= widths.len(),
        sum(widths.take(fitting(widths, room))) <= room,
        fitting(widths, room) < widths.len() ==> sum(widths.take(fitting(widths, room)))
            + widths[fitting(widths, room)] > room,
    decreases widths.len(),
{
    if widths.len() > 0 && widths[0] <= room {
        let n = fitting(widths.skip(1), room - widths[0]);
        lemma_fitting(widths.skip(1), room - widths[0]);
        assert(widths.take(n + 1).skip(1) =~= widths.skip(1).take(n));
        assert(widths.take(n + 1)[0] == widths[0]);
    } else {
        assert(widths.take(0).len() == 0);
    }
}

/// A text cut to so many columns: where it is wider, as much of it as leaves
/// room for the sign that something is missing.
pub open spec fn cut(s: Seq<char>, width: int, widths: Seq<int>, max: int) -> Seq<char> {
    if width <= max {
        s
    } else if max <= 1 {
        "…"@
    } else {
        s.take(fitting(widths, max - 1)) + "…"@
    }
}

/// Widths as numbers.
pub open spec fn as_ints(v: Seq<usize>) -> Seq<int> {
    v.map_values(|w: usize| w as int)
}

/// Cuts a text to so many columns, given its width and those of its
/// characters.
pub fn cut_to(s: &str, width: usize, widths: &Vec<usize>, max_cols: usize) -> (r: String)
    requires
        widths@.len() == s@.len(),
    ensures
        r@ == cut(s@, width as int, as_ints(widths@), max_cols as int),
{
    if width <= max_cols {
        return s.to_owned();
    }
    if max_cols <= 1 {
        return "…".to_owned();
    }
    let room: usize = max_cols - 1;
    let all: Vec<char> = chars(s);
    let ghost ws = as_ints(widths@);
    let mut i: usize = 0;
    let mut w: usize = 0;
    proof {
        assert(ws.skip(0) =~= ws);
    }
    while i < widths.len() && widths[i] <= room - w
        invariant
            i <= widths@.len(),
            w <= room,
            ws == as_ints(widths@),
            i + fitting(ws.skip(i as int), room - w) == fitting(ws, room as int),
        decreases widths@.len() - i,
    {
        proof {
            assert(ws.skip(i as int)[0] == widths@[i as int]);
            assert(ws.skip(i as int).skip(1) =~= ws.skip(i as int + 1));
        }
        w += widths[i];
        i += 1;
    }
    proof {
        if i < widths@.len() {
            assert(ws.skip(i as int)[0] == widths@[i as int]);
        }
        assert(fitting(ws, room as int) == i);
    }
    let mut r: String = from_chars(slice_subrange(all.as_slice(), 0, i));
    proof {
        assert(r@ =~= s@.take(i as int));
    }
    r.push_str("…");
    r
}

/// The widths of a text's characters, each taken as a text of its own.
pub open spec fn single_widths(s: Seq<char>) -> Seq<int> {
    s.map_values(|c: char| text_columns(seq![c]) as int)
}

/// The widths of a text's characters; one without a width takes no room.
pub open spec fn char_widths(s: Seq<char>) -> Seq<int> {
    s.map_values(
        |c: char|
            match char_columns(c) {
                Some(w) => w as int,
                None => 0,
            },
    )
}

/// Cuts a text to so many columns.
pub fn truncate(s: &str, max_cols: usize) -> (r: String)
    ensures
        r@ == cut(s@, text_columns(s@) as int, single_widths(s@), max_cols as int),
{
    let all: Vec<char> = chars(s);
    let mut widths: Vec<usize> = Vec::new();
    let mut i: usize = 0;
    while i < all.len()
        invariant
            all@ == s@,
            i <= all@.len(),
            widths@.len() == i,
            forall|j: int|
                0 <= j < i ==> #[trigger] widths@[j] == text_columns(seq![s@[j]]),
        decreases all@.len() - i,
    {
        let mut one: String = String::new();
        one.push(all[i]);
        proof {
            assert(one@ =~= seq![s@[i as int]]);
        }
        widths.push(width_of(one.as_str()));
        i += 1;
    }
    proof {
        assert(as_ints(widths@) =~= single_widths(s@));
    }
    cut_to(s, width_of(s), &widths, max_cols)
}

/// Cuts a text to so many columns, by the widths of its characters.
pub fn truncate_to_width(s: &str, max_cols: usize) -> (r: String)
    ensures
        r@ == cut(s@, text_columns(s@) as int, char_widths(s@), max_cols as int),
{
    let all: Vec<char> = chars(s);
    let mut widths: Vec<usize> = Vec::new();
    let mut i: usize = 0;
    while i < all.len()
        invariant
            all@ == s@,
            i <= all@.len(),
            widths@.len() == i,
            forall|j: int| 0 <= j < i ==> #[trigger] widths@[j] == char_widths(s@)[j],
        decreases all@.len() - i,
    {
        let w: usize = match width_of_char(all[i]) {
            Some(w) => w,
            None => 0,
        };
        widths.push(w);
        i += 1;
    }
    proof {
        assert(as_ints(widths@) =~= char_widths(s@));
    }
    cut_to(s, width_of(s), &widths, max_cols)
}

/// A text filled up with spaces on the right.
pub open spec fn filled(s: Seq<char>, width: int, cols: int) -> Seq<char> {
    if width >= cols {
        s
    } else {
        s + blanks((cols - width) as nat)
    }
}

/// Fills a text up with spaces on the right, given its width.
pub fn fill_to(s: &str, width: usize, cols: usize) -> (r: String)
    ensures
        r@ == filled(s@, width as int, cols as int),
{
    let mut r: String = s.to_owned();
    if width < cols {
        let pad: String = spaces(cols - width);
        r.push_str(pad.as_str());
    }
    r
}

/// Fills a text up with spaces on the right to so many columns.
pub fn pad_to(s: &str, cols: usize) -> (r: String)
    ensures
        r@ == filled(s@, text_columns(s@) as int, cols as int),
{
    fill_to(s, width_of(s), cols)
}

/// A text moved to the right end of so many columns.
pub open spec fn right_aligned(s: Seq<char>, width: int, cols: int) -> Seq<char> {
    blanks(
        if width < cols {
            (cols - width) as nat
        } else {
            0
        },
    ) + s
}

/// Moves a text to the right end of so many columns.
pub fn align_right(s: &str, cols: usize) -> (r: String)
    ensures
        r@ == right_aligned(s@, text_columns(s@) as int, cols as int),
{
    let w: usize = width_of(s);
    let mut r: String = spaces(
        if w < cols {
            cols - w
        } else {
            0
        },
    );
    r.push_str(s);
    r
}

/// A text that fits is left as it is; one that does not is the beginning of it
/// and a sign that something is missing.
pub proof fn lemma_cut(s: Seq<char>, width: int, widths: Seq<int>, max: int)
    requires
        widths.len() == s.len(),
        forall|i: int| 0 <= i < widths.len() ==> #[trigger] widths[i] >= 0,
    ensures
        width <= max ==> cut(s, width, widths, max) == s,
        width > max && max > 1 ==> {
            let n = fitting(widths, max - 1);
            &&& 0 <= n <= s.len()
            &&& cut(s, width, widths, max) == s.subrange(0, n) + "…"@
            &&& sum(widths.take(n)) < max
        },
        width > max && max <= 1 ==> cut(s, width, widths, max) == "…"@,
{
    if width > max && max > 1 {
        lemma_fitting(widths, max - 1);
        assert(s.take(fitting(widths, max - 1)) =~= s.subrange(0, fitting(widths, max - 1)));
    }
}

/// A text is filled up behind, or moved to the right by blanks before it, by as
/// many columns as are left; one that fills them is left alone.
pub proof fn lemma_filled(s: Seq<char>, width: int, cols: int)
    ensures
        width >= cols ==> filled(s, width, cols) == s,
        width >= cols ==> right_aligned(s, width, cols) == s,
        width < cols ==> filled(s, width, cols) == s + blanks((cols - width) as nat),
        width < cols ==> right_aligned(s, width, cols) == blanks((cols - width) as nat) + s,
        forall|n: nat, i: int| 0 <= i < n ==> #[trigger] blanks(n)[i] == ' ',
        forall|n: nat| (#[trigger] blanks(n)).len() == n,
{
    assert(blanks(0) + s =~= s);
}

} // verus!
