//! JSON values, as far as the answers of media servers need looking into
//! before they are decoded.

use vstd::prelude::*;

use crate::text::{chars, from_chars, str_eq, to_upper};

verus! {

/// A JSON value. A number is kept as it is written. Where an object holds a
/// key twice, the later entry counts.
#[derive(Debug)]
pub enum Json {
    Null,
    Bool(bool),
    Number(String),
    Text(String),
    Array(Vec<Json>),
    Object(Vec<(String, Json)>),
}

/// A JSON value by what it holds.
pub ghost enum Tree {
    Null,
    Bool(bool),
    Number(Seq<char>),
    Text(Seq<char>),
    Array(Seq<Tree>),
    Object(Seq<(Seq<char>, Tree)>),
}

impl Json {
    /// What a value holds.
    pub open spec fn tree(self) -> Tree
        decreases self,
    {
        match self {
            Json::Null => Tree::Null,
            Json::Bool(b) => Tree::Bool(b),
            Json::Number(n) => Tree::Number(n@),
            Json::Text(t) => Tree::Text(t@),
            Json::Array(v) => Tree::Array(
                Seq::new(
                    v@.len(),
                    |i: int|
                        if 0 <= i < v@.len() {
                            v@[i].tree()
                        } else {
                            Tree::Null
                        },
                ),
            ),
            Json::Object(v) => Tree::Object(
                Seq::new(
                    v@.len(),
                    |i: int|
                        if 0 <= i < v@.len() {
                            (v@[i].0@, v@[i].1.tree())
                        } else {
                            (Seq::empty(), Tree::Null)
                        },
                ),
            ),
        }
    }
}

impl View for Json {
    type V = Tree;

    open spec fn view(&self) -> Tree {
        self.tree()
    }
}

impl Clone for Json {
    fn clone(&self) -> (r: Self)
        ensures
            r@ == self@,
        decreases *self,
    {
        match self {
            Json::Null => Json::Null,
            Json::Bool(b) => Json::Bool(*b),
            Json::Number(n) => Json::Number(n.clone()),
            Json::Text(t) => Json::Text(t.clone()),
            Json::Array(v) => {
                let mut out: Vec<Json> = Vec::new();
                let mut i: usize = 0;
                while i < v.len()
                    invariant
                        *self == Json::Array(*v),
                        i <= v@.len(),
                        out@.len() == i,
                        forall|j: int| 0 <= j < i ==> (#[trigger] out@[j])@ == v@[j]@,
                    decreases v@.len() - i,
                {
                    proof {
                        assert(decreases_to!(*self => self->Array_0));
                        assert(decreases_to!(*v => v@));
                        assert(decreases_to!(v@ => v@[i as int]));
                    }
                    out.push(v[i].clone());
                    i += 1;
                }
                let r = Json::Array(out);
                proof {
                    assert(r@->Array_0 =~= self@->Array_0);
                }
                r
            },
            Json::Object(v) => {
                let mut out: Vec<(String, Json)> = Vec::new();
                let mut i: usize = 0;
                while i < v.len()
                    invariant
                        *self == Json::Object(*v),
                        i <= v@.len(),
                        out@.len() == i,
                        forall|j: int|
                            0 <= j < i ==> (#[trigger] out@[j]).0@ == v@[j].0@ && out@[j].1@
                                == v@[j].1@,
                    decreases v@.len() - i,
                {
                    proof {
                        assert(decreases_to!(*self => self->Object_0));
                        assert(decreases_to!(*v => v@));
                        assert(decreases_to!(v@ => v@[i as int]));
                        assert(decreases_to!(v@[i as int] => v@[i as int].1));
                    }
                    out.push((v[i].0.clone(), v[i].1.clone()));
                    i += 1;
                }
                let r = Json::Object(out);
                proof {
                    assert(r@->Object_0 =~= self@->Object_0);
                }
                r
            },
        }
    }
}

/// A key with its first character in upper case.
pub open spec fn pascal_key(k: Seq<char>) -> Seq<char> {
    if k.len() == 0 {
        k
    } else {
        crate::text::upper_case(seq![k[0]]) + k.skip(1)
    }
}

/// Every key, at any depth, with its first character in upper case.
pub open spec fn normalized(t: Tree) -> Tree
    decreases t,
{
    match t {
        Tree::Array(v) => Tree::Array(
            Seq::new(
                v.len(),
                |i: int|
                    if 0 <= i < v.len() {
                        normalized(v[i])
                    } else {
                        Tree::Null
                    },
            ),
        ),
        Tree::Object(v) => Tree::Object(
            Seq::new(
                v.len(),
                |i: int|
                    if 0 <= i < v.len() {
                        (pascal_key(v[i].0), normalized(v[i].1))
                    } else {
                        (Seq::empty(), Tree::Null)
                    },
            ),
        ),
        _ => t,
    }
}

/// A key that begins with an ASCII character, with its first letter in upper
/// case.
pub open spec fn ascii_key(k: Seq<char>) -> Seq<char> {
    if k.len() == 0 {
        k
    } else {
        seq![crate::text::upper_char(k[0])] + k.skip(1)
    }
}

fn upper_first(k: &str) -> (r: String)
    ensures
        r@ == pascal_key(k@),
        k@.len() > 0 && k@[0] as int <= 127 ==> r@ == ascii_key(k@),
{
    let all: Vec<char> = chars(k);
    if all.len() == 0 {
        return k.to_owned();
    }
    let mut first: String = String::new();
    first.push(all[0]);
    proof {
        assert(first@ =~= seq![k@[0]]);
    }
    let mut r: String = to_upper(first.as_str());
    proof {
        if k@[0] as int <= 127 {
            assert(r@ =~= seq![crate::text::upper_char(k@[0])]);
        }
    }
    let rest: &[char] = vstd::slice::slice_subrange(all.as_slice(), 1, all.len());
    let tail: String = from_chars(rest);
    proof {
        assert(tail@ =~= k@.skip(1));
    }
    r.push_str(tail.as_str());
    r
}

/// Puts the first character of every key, at any depth, in upper case. Servers
/// differ in how they write their keys.
pub fn normalize_keys(value: &Json) -> (r: Json)
    ensures
        r@ == normalized(value@),
    decreases *value,
{
    match value {
        Json::Array(v) => {
            let mut out: Vec<Json> = Vec::new();
            let mut i: usize = 0;
            while i < v.len()
                invariant
                    *value == Json::Array(*v),
                    i <= v@.len(),
                    out@.len() == i,
                    forall|j: int| 0 <= j < i ==> (#[trigger] out@[j])@ == normalized(v@[j]@),
                decreases v@.len() - i,
            {
                proof {
                    assert(decreases_to!(*value => value->Array_0));
                    assert(decreases_to!(*v => v@));
                    assert(decreases_to!(v@ => v@[i as int]));
                }
                out.push(normalize_keys(&v[i]));
                i += 1;
            }
            let r = Json::Array(out);
            proof {
                assert(r@->Array_0 =~= normalized(value@)->Array_0);
            }
            r
        },
        Json::Object(v) => {
            let mut out: Vec<(String, Json)> = Vec::new();
            let mut i: usize = 0;
            while i < v.len()
                invariant
                    *value == Json::Object(*v),
                    i <= v@.len(),
                    out@.len() == i,
                    forall|j: int|
                        0 <= j < i ==> (#[trigger] out@[j]).0@ == pascal_key(v@[j].0@)
                            && out@[j].1@ == normalized(v@[j].1@),
                decreases v@.len() - i,
            {
                proof {
                    assert(decreases_to!(*value => value->Object_0));
                    assert(decreases_to!(*v => v@));
                    assert(decreases_to!(v@ => v@[i as int]));
                    assert(decreases_to!(v@[i as int] => v@[i as int].1));
                }
                out.push((upper_first(v[i].0.as_str()), normalize_keys(&v[i].1)));
                i += 1;
            }
            let r = Json::Object(out);
            proof {
                assert(r@->Object_0 =~= normalized(value@)->Object_0);
            }
            r
        },
        _ => value.clone(),
    }
}

/// A key as it looks after its first character was put in upper case.
pub fn normalize_key(k: &str) -> (r: String)
    ensures
        r@ == pascal_key(k@),
        k@.len() > 0 && k@[0] as int <= 127 ==> r@ == ascii_key(k@),
{
    upper_first(k)
}

/// Two spellings of a key that differ only in whether the first letter is in
/// upper case come out the same.
pub proof fn lemma_casings_agree(a: Seq<char>, b: Seq<char>)
    requires
        a.len() > 0,
        b.len() > 0,
        crate::text::upper_char(a[0]) == crate::text::upper_char(b[0]),
        a.skip(1) == b.skip(1),
    ensures
        ascii_key(a) == ascii_key(b),
{
}

/// The last entry of an object with a key.
pub open spec fn entry(v: Seq<(Seq<char>, Tree)>, key: Seq<char>) -> Option<Tree>
    decreases v.len(),
{
    if v.len() == 0 {
        None
    } else if v.last().0 == key {
        Some(v.last().1)
    } else {
        entry(v.drop_last(), key)
    }
}

impl Tree {
    /// What an object holds under a key.
    pub open spec fn at(self, key: Seq<char>) -> Option<Tree> {
        match self {
            Tree::Object(v) => entry(v, key),
            _ => None,
        }
    }

    /// The text that a value is.
    pub open spec fn text(self) -> Option<Seq<char>> {
        match self {
            Tree::Text(t) => Some(t),
            _ => None,
        }
    }

    /// The list of search hits in an answer: under one of two keys, or the
    /// answer itself.
    pub open spec fn hints(self) -> Option<Tree> {
        let found = match self.at("SearchHints"@) {
            Some(h) => Some(h),
            None => match self.at("Hints"@) {
                Some(h) => Some(h),
                None => if self is Array {
                    Some(self)
                } else {
                    None
                },
            },
        };
        match found {
            Some(Tree::Null) => None,
            f => f,
        }
    }

    /// The list of items in an answer: under its key, or the answer itself.
    pub open spec fn listed(self) -> Option<Tree> {
        let found = match self.at("Items"@) {
            Some(h) => Some(h),
            None => if self is Array {
                Some(self)
            } else {
                None
            },
        };
        match found {
            Some(Tree::Null) => None,
            f => f,
        }
    }
}

/// What an optional value holds.
pub open spec fn opt_tree(v: Option<&Json>) -> Option<Tree> {
    match v {
        Some(j) => Some(j@),
        None => None,
    }
}

impl Json {
    /// What an object holds under a key.
    pub fn get(&self, key: &str) -> (r: Option<&Json>)
        ensures
            opt_tree(r) == self@.at(key@),
    {
        match self {
            Json::Object(v) => {
                let ghost all = self@->Object_0;
                let mut i: usize = v.len();
                proof {
                    assert(all.take(i as int) =~= all);
                }
                while i > 0
                    invariant
                        *self == Json::Object(*v),
                        all == self@->Object_0,
                        i <= v@.len(),
                        entry(all, key@) == entry(all.take(i as int), key@),
                    decreases i,
                {
                    i -= 1;
                    proof {
                        assert(all.take(i as int + 1).drop_last() =~= all.take(i as int));
                        assert(all.take(i as int + 1).last() == all[i as int]);
                        assert(all[i as int] == (v@[i as int].0@, v@[i as int].1@));
                    }
                    if str_eq(v[i].0.as_str(), key) {
                        return Some(&v[i].1);
                    }
                }
                proof {
                    assert(all.take(0).len() == 0);
                }
                None
            },
            _ => None,
        }
    }

    /// The text that a value is.
    pub fn as_str(&self) -> (r: Option<&str>)
        ensures
            match r {
                Some(s) => self@.text() == Some(s@),
                None => self@.text() is None,
            },
    {
        match self {
            Json::Text(t) => Some(t.as_str()),
            _ => None,
        }
    }

    /// The list of search hits in an answer whose keys are normalized.
    pub fn hints(&self) -> (r: Option<&Json>)
        ensures
            opt_tree(r) == self@.hints(),
    {
        let found: Option<&Json> = match self.get("SearchHints") {
            Some(h) => Some(h),
            None => match self.get("Hints") {
                Some(h) => Some(h),
                None => match self {
                    Json::Array(_) => Some(self),
                    _ => None,
                },
            },
        };
        match found {
            Some(Json::Null) => None,
            f => f,
        }
    }

    /// The list of items in an answer whose keys are normalized.
    pub fn listed(&self) -> (r: Option<&Json>)
        ensures
            opt_tree(r) == self@.listed(),
    {
        let found: Option<&Json> = match self.get("Items") {
            Some(h) => Some(h),
            None => match self {
                Json::Array(_) => Some(self),
                _ => None,
            },
        };
        match found {
            Some(Json::Null) => None,
            f => f,
        }
    }
}

/// What the entries of an object hold.
pub open spec fn field_views(v: Seq<(String, Json)>) -> Seq<(Seq<char>, Tree)> {
    v.map_values(|f: (String, Json)| (f.0@, f.1@))
}

/// Adds an entry to those of an object.
pub fn push_field(fields: &mut Vec<(String, Json)>, key: &str, value: Json)
    ensures
        field_views(final(fields)@) == field_views(old(fields)@).push((key@, value@)),
{
    fields.push((key.to_owned(), value));
    proof {
        assert(field_views(fields@) =~= field_views(old(fields)@).push((key@, value@)));
    }
}

/// An object of the given entries.
pub fn object(fields: Vec<(String, Json)>) -> (r: Json)
    ensures
        r@ == Tree::Object(field_views(fields@)),
{
    let ghost views = field_views(fields@);
    let r = Json::Object(fields);
    proof {
        assert(r@->Object_0 =~= views);
    }
    r
}

// ---------------------------------------------------------------------------
// Reading
// ---------------------------------------------------------------------------

/// A value of the crate `serde_json`.
#[verifier::external_type_specification]
#[verifier::external_body]
pub struct ExValue(serde_json::Value);

/// What a value of `serde_json` holds: a number by how it is written, an object
/// by its entries in the order in which `serde_json` keeps them.
pub uninterp spec fn tree_of(v: serde_json::Value) -> Tree;

/// What `serde_json::from_str` reads in a text, if the text is JSON.
pub uninterp spec fn json_of(text: Seq<char>) -> Option<Tree>;

/// The outermost layer of a value of `serde_json`.
enum Layer<'a> {
    Null,
    Bool(bool),
    Number(String),
    Text(String),
    Array(&'a Vec<serde_json::Value>),
    Object(Vec<(&'a String, &'a serde_json::Value)>),
}

/// What a layer holds, by what the values below it hold.
spec fn layer_tree(l: Layer) -> Tree {
    match l {
        Layer::Null => Tree::Null,
        Layer::Bool(b) => Tree::Bool(b),
        Layer::Number(n) => Tree::Number(n@),
        Layer::Text(t) => Tree::Text(t@),
        Layer::Array(v) => Tree::Array(v@.map_values(|x: serde_json::Value| tree_of(x))),
        Layer::Object(v) => Tree::Object(
            v@.map_values(|f: (&String, &serde_json::Value)| (f.0@, tree_of(*f.1))),
        ),
    }
}

/// Calls `serde_json::from_str` for a value. The claim: the outcome depends on
/// the text alone.
#[verifier::external_body]
fn parse_value(text: &str) -> (r: Option<serde_json::Value>)
    ensures
        match r {
            Some(v) => json_of(text@) == Some(tree_of(v)),
            None => json_of(text@) is None,
        },
{
    serde_json::from_str(text).ok()
}

/// Tells the variants of `serde_json::Value` apart; a number is written with its
/// `to_string`. The claim: a value holds what its outermost layer says.
#[verifier::external_body]
fn layer_of<'a>(v: &'a serde_json::Value) -> (r: Layer<'a>)
    ensures
        tree_of(*v) == layer_tree(r),
{
    match v {
        serde_json::Value::Null => Layer::Null,
        serde_json::Value::Bool(b) => Layer::Bool(*b),
        serde_json::Value::Number(n) => Layer::Number(n.to_string()),
        serde_json::Value::String(s) => Layer::Text(s.clone()),
        serde_json::Value::Array(a) => Layer::Array(a),
        serde_json::Value::Object(o) => Layer::Object(o.iter().collect()),
    }
}

/// Takes a value of `serde_json` over.
fn from_value(value: &serde_json::Value) -> (r: Json)
    ensures
        r@ == tree_of(*value),
    decreases tree_of(*value),
{
    match layer_of(value) {
        Layer::Null => Json::Null,
        Layer::Bool(b) => Json::Bool(b),
        Layer::Number(n) => Json::Number(n),
        Layer::Text(t) => Json::Text(t),
        Layer::Array(v) => {
            let ghost all = tree_of(*value)->Array_0;
            let mut out: Vec<Json> = Vec::new();
            let mut i: usize = 0;
            while i < v.len()
                invariant
                    tree_of(*value) == Tree::Array(all),
                    all == v@.map_values(|x: serde_json::Value| tree_of(x)),
                    i <= v@.len(),
                    out@.len() == i,
                    forall|j: int| 0 <= j < i ==> (#[trigger] out@[j])@ == all[j],
                decreases v@.len() - i,
            {
                proof {
                    assert(all[i as int] == tree_of(v@[i as int]));
                    assert(decreases_to!(tree_of(*value) => tree_of(*value)->Array_0));
                    assert(decreases_to!(all => all[i as int]));
                }
                out.push(from_value(&v[i]));
                i += 1;
            }
            let r = Json::Array(out);
            proof {
                assert(r@->Array_0 =~= all);
            }
            r
        },
        Layer::Object(v) => {
            let ghost all = tree_of(*value)->Object_0;
            let mut out: Vec<(String, Json)> = Vec::new();
            let mut i: usize = 0;
            while i < v.len()
                invariant
                    tree_of(*value) == Tree::Object(all),
                    all == v@.map_values(
                        |f: (&String, &serde_json::Value)| (f.0@, tree_of(*f.1)),
                    ),
                    i <= v@.len(),
                    out@.len() == i,
                    forall|j: int|
                        0 <= j < i ==> (#[trigger] out@[j]).0@ == all[j].0 && out@[j].1@
                            == all[j].1,
                decreases v@.len() - i,
            {
                proof {
                    assert(all[i as int] == (v@[i as int].0@, tree_of(*v@[i as int].1)));
                    assert(decreases_to!(tree_of(*value) => tree_of(*value)->Object_0));
                    assert(decreases_to!(all => all[i as int]));
                    assert(decreases_to!(all[i as int] => all[i as int].1));
                }
                out.push((v[i].0.clone(), from_value(v[i].1)));
                i += 1;
            }
            let r = Json::Object(out);
            proof {
                assert(r@->Object_0 =~= all);
            }
            r
        },
    }
}

/// Reads a text as JSON.
pub fn parse_json(text: &str) -> (r: Option<Json>)
    ensures
        match r {
            Some(j) => json_of(text@) == Some(j@),
            None => json_of(text@) is None,
        },
{
    match parse_value(text) {
        Some(v) => Some(from_value(&v)),
        None => None,
    }
}

/// Reads a text as JSON, with the keys in the one spelling that is looked for.
pub fn parse_json_lenient(body: &str) -> (r: Option<Json>)
    ensures
        match r {
            Some(j) => json_of(body@) is Some && j@ == normalized(json_of(body@)->0),
            None => json_of(body@) is None,
        },
{
    match parse_json(body) {
        Some(j) => Some(normalize_keys(&j)),
        None => None,
    }
}

/// What an optional value holds.
pub open spec fn owned_tree(v: Option<Json>) -> Option<Tree> {
    match v {
        Some(j) => Some(j@),
        None => None,
    }
}

fn owned(v: Option<&Json>) -> (r: Option<Json>)
    ensures
        owned_tree(r) == opt_tree(v),
{
    match v {
        Some(j) => Some(j.clone()),
        None => None,
    }
}

/// The list of search hits in the text of an answer, whatever spelling its keys
/// have. A text that is no JSON has none.
pub fn hints_in(body: &str) -> (r: Option<Json>)
    ensures
        owned_tree(r) == (match json_of(body@) {
            Some(t) => normalized(t).hints(),
            None => None,
        }),
{
    match parse_json_lenient(body) {
        Some(j) => owned(j.hints()),
        None => None,
    }
}

/// The list of items in the text of an answer, whatever spelling its keys have.
/// A text that is no JSON has none.
pub fn listed_in(body: &str) -> (r: Option<Json>)
    ensures
        owned_tree(r) == (match json_of(body@) {
            Some(t) => normalized(t).listed(),
            None => None,
        }),
{
    match parse_json_lenient(body) {
        Some(j) => owned(j.listed()),
        None => None,
    }
}

/// What an object holds under a key is the last entry with that key.
pub proof fn lemma_entry(v: Seq<(Seq<char>, Tree)>, key: Seq<char>, value: Tree, other: Seq<char>)
    ensures
        entry(v.push((key, value)), key) == Some(value),
        other != key ==> entry(v.push((other, value)), key) == entry(v, key),
        entry(Seq::empty(), key) is None,
        Tree::Object(v).at(key) == entry(v, key),
        Tree::Null.at(key) is None,
{
    assert(v.push((key, value)).drop_last() =~= v);
    assert(v.push((other, value)).drop_last() =~= v);
}

/// The hits of a search stand under their key, or under a shorter one, or are
/// the answer itself; the items of a list under theirs, or likewise.
pub proof fn lemma_lists_found(t: Tree, list: Tree)
    requires
        list is Array,
    ensures
        t.at("SearchHints"@) == Some(list) ==> t.hints() == Some(list),
        t.at("SearchHints"@) is None && t.at("Hints"@) == Some(list) ==> t.hints() == Some(list),
        list.hints() == Some(list),
        t.at("Items"@) == Some(list) ==> t.listed() == Some(list),
        list.listed() == Some(list),
        Tree::Null.hints() is None,
        Tree::Null.listed() is None,
{
}

/// Spelling the keys alike keeps every value and the shape of the whole.
pub proof fn lemma_normalized_keeps(t: Tree, s: Seq<char>, b: bool)
    ensures
        normalized(Tree::Text(s)) == Tree::Text(s),
        normalized(Tree::Number(s)) == Tree::Number(s),
        normalized(Tree::Bool(b)) == Tree::Bool(b),
        normalized(Tree::Null) == Tree::Null,
        t matches Tree::Array(v) ==> normalized(t) is Array && normalized(t)->Array_0.len()
            == v.len() && forall|i: int|
            0 <= i < v.len() ==> #[trigger] normalized(t)->Array_0[i] == normalized(v[i]),
        t matches Tree::Object(v) ==> normalized(t) is Object && normalized(t)->Object_0.len()
            == v.len() && forall|i: int|
            0 <= i < v.len() ==> (#[trigger] normalized(t)->Object_0[i]) == (
                pascal_key(v[i].0),
                normalized(v[i].1),
            ),
{
}

/// Only the first letter of a key changes.
pub proof fn lemma_key_kept(k: Seq<char>)
    requires
        k.len() > 0,
    ensures
        ascii_key(k).len() == k.len(),
        ascii_key(k).skip(1) == k.skip(1),
        'a' <= k[0] <= 'z' ==> ascii_key(k)[0] as int == k[0] as int - 32,
        !('a' <= k[0] <= 'z') ==> ascii_key(k) == k,
{
    assert(ascii_key(k).skip(1) =~= k.skip(1));
    if !('a' <= k[0] <= 'z') {
        assert(ascii_key(k) =~= k);
    }
}

} // verus!
