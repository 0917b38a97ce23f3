//! Sorting that keeps the order of equals.

use vstd::prelude::*;

verus! {

/// What things are sorted by: two numbers, then a text.
pub ghost struct Rank {
    pub first: int,
    pub second: int,
    pub name: Seq<char>,
}

/// Whether a text comes before another, character by character.
pub open spec fn text_before(a: Seq<char>, b: Seq<char>) -> bool
    decreases a.len(),
{
    if b.len() == 0 {
        false
    } else if a.len() == 0 {
        true
    } else if a[0] != b[0] {
        a[0] < b[0]
    } else {
        text_before(a.skip(1), b.skip(1))
    }
}

/// Whether a rank comes before another.
pub open spec fn rank_before(a: Rank, b: Rank) -> bool {
    if a.first != b.first {
        a.first < b.first
    } else if a.second != b.second {
        a.second < b.second
    } else {
        text_before(a.name, b.name)
    }
}

/// Something that has a rank.
pub trait Ranked: Sized {
    /// What it is sorted by.
    spec fn rank(&self) -> Rank;

    /// Whether it comes before another.
    fn before(&self, other: &Self) -> (r: bool)
        ensures
            r == rank_before(self.rank(), other.rank()),
    ;
}

/// Compares two texts character by character.
pub fn str_before(a: &str, b: &str) -> (r: bool)
    ensures
        r == text_before(a@, b@),
{
    let x: Vec<char> = crate::text::chars(a);
    let y: Vec<char> = crate::text::chars(b);
    let mut i: usize = 0;
    proof {
        assert(x@.skip(0) =~= x@);
        assert(y@.skip(0) =~= y@);
    }
    while i < x.len() && i < y.len()
        invariant
            x@ == a@,
            y@ == b@,
            i <= x@.len(),
            i <= y@.len(),
            text_before(a@, b@) == text_before(x@.skip(i as int), y@.skip(i as int)),
        decreases x@.len() - i,
    {
        proof {
            assert(x@.skip(i as int)[0] == x@[i as int]);
            assert(y@.skip(i as int)[0] == y@[i as int]);
            assert(x@.skip(i as int).skip(1) =~= x@.skip(i as int + 1));
            assert(y@.skip(i as int).skip(1) =~= y@.skip(i as int + 1));
        }
        if x[i] != y[i] {
            return x[i] < y[i];
        }
        i += 1;
    }
    proof {
        assert(x@.skip(i as int).len() == x@.len() - i);
        assert(y@.skip(i as int).len() == y@.len() - i);
    }
    i < y.len()
}

proof fn lemma_text_order(a: Seq<char>, b: Seq<char>, c: Seq<char>)
    ensures
        !text_before(a, a),
        text_before(a, b) ==> !text_before(b, a),
        text_before(a, b) && text_before(b, c) ==> text_before(a, c),
        !text_before(a, b) && !text_before(b, a) ==> a == b,
    decreases a.len() + b.len() + c.len(),
{
    if a.len() > 0 {
        lemma_text_order(
            a.skip(1),
            if b.len() > 0 {
                b.skip(1)
            } else {
                b
            },
            if c.len() > 0 {
                c.skip(1)
            } else {
                c
            },
        );
        if b.len() > 0 && a[0] == b[0] && a.skip(1) == b.skip(1) {
            assert(a =~= seq![a[0]] + a.skip(1));
            assert(b =~= seq![b[0]] + b.skip(1));
        }
    } else if b.len() == 0 {
        assert(a =~= b);
    }
}

/// Ranks are in order: none comes before itself, of two different ones exactly
/// one comes first, and what comes before something before a third comes
/// before that.
pub proof fn lemma_rank_order(a: Rank, b: Rank, c: Rank)
    ensures
        !rank_before(a, a),
        rank_before(a, b) ==> !rank_before(b, a),
        rank_before(a, b) && rank_before(b, c) ==> rank_before(a, c),
        !rank_before(a, b) && !rank_before(b, a) ==> a == b,
{
    lemma_text_order(a.name, b.name, c.name);
}

/// No element comes before one that stands before it.
pub open spec fn in_order<T: Ranked>(v: Seq<T>) -> bool {
    forall|i: int, j: int|
        0 <= i < j < v.len() ==> !rank_before((#[trigger] v[j]).rank(), (#[trigger] v[i]).rank())
}

/// Being of a rank.
pub open spec fn of_rank<T: Ranked>(k: Rank) -> spec_fn(T) -> bool {
    |x: T| x.rank() == k
}

/// The same elements, in order, with those of equal rank as they were.
pub open spec fn sorts<T: Ranked>(before: Seq<T>, after: Seq<T>) -> bool {
    &&& in_order(after)
    &&& forall|k: Rank|
        #[trigger] after.filter(of_rank::<T>(k)) == before.filter(of_rank::<T>(k))
    &&& after.len() == before.len()
    &&& after.to_multiset() == before.to_multiset()
}

proof fn lemma_filter_none<T: Ranked>(v: Seq<T>, k: Rank)
    requires
        forall|i: int| 0 <= i < v.len() ==> (#[trigger] v[i]).rank() != k,
    ensures
        v.filter(of_rank::<T>(k)) == Seq::<T>::empty(),
    decreases v.len(),
{
    reveal(Seq::filter);
    if v.len() > 0 {
        assert forall|i: int| 0 <= i < v.drop_last().len() implies (
        #[trigger] v.drop_last()[i]).rank() != k by {
            assert(v.drop_last()[i] == v[i]);
        }
        lemma_filter_none(v.drop_last(), k);
        assert(v.last().rank() != k);
    }
}

proof fn lemma_insert<T: Ranked>(v: Seq<T>, x: T, at: int)
    requires
        0 <= at <= v.len(),
        in_order(v),
        forall|i: int| 0 <= i < at ==> !rank_before(x.rank(), (#[trigger] v[i]).rank()),
        forall|i: int| at <= i < v.len() ==> rank_before(x.rank(), (#[trigger] v[i]).rank()),
    ensures
        sorts(v.push(x), v.insert(at, x)),
{
    let w = v.insert(at, x);
    assert(w =~= v.take(at) + seq![x] + v.skip(at));
    assert(v.push(x) =~= v.take(at) + v.skip(at) + seq![x]);
    assert forall|k: Rank| #[trigger] w.filter(of_rank::<T>(k)) == v.push(x).filter(
        of_rank::<T>(k),
    ) by {
        let p = of_rank::<T>(k);
        Seq::filter_distributes_over_add(v.take(at) + seq![x], v.skip(at), p);
        Seq::filter_distributes_over_add(v.take(at), seq![x], p);
        Seq::filter_distributes_over_add(v.take(at) + v.skip(at), seq![x], p);
        Seq::filter_distributes_over_add(v.take(at), v.skip(at), p);
        if k == x.rank() {
            lemma_rank_order(k, k, k);
            assert forall|i: int| 0 <= i < v.skip(at).len() implies (
            #[trigger] v.skip(at)[i]).rank() != k by {
                assert(v.skip(at)[i] == v[at + i]);
            }
            lemma_filter_none(v.skip(at), k);
            assert((v.take(at) + v.skip(at)).filter(p) =~= v.take(at).filter(p));
            assert(w.filter(p) =~= v.take(at).filter(p) + seq![x].filter(p));
        } else {
            assert forall|i: int| 0 <= i < seq![x].len() implies (
            #[trigger] seq![x][i]).rank() != k by {}
            lemma_filter_none(seq![x], k);
            assert(w.filter(p) =~= v.push(x).filter(p));
        }
    }
    assert forall|i: int, j: int| 0 <= i < j < w.len() implies !rank_before(
        (#[trigger] w[j]).rank(),
        (#[trigger] w[i]).rank(),
    ) by {
        let a = if i < at {
            v[i]
        } else if i == at {
            x
        } else {
            v[i - 1]
        };
        let b = if j < at {
            v[j]
        } else if j == at {
            x
        } else {
            v[j - 1]
        };
        assert(w[i] == a);
        assert(w[j] == b);
        lemma_rank_order(a.rank(), b.rank(), a.rank());
    }
    broadcast use vstd::seq_lib::group_to_multiset_ensures;

    assert(w.to_multiset() =~= v.push(x).to_multiset());
}

proof fn lemma_sorts_more<T: Ranked>(a: Seq<T>, b: Seq<T>, x: T, c: Seq<T>)
    requires
        sorts(a, b),
        sorts(b.push(x), c),
    ensures
        sorts(a.push(x), c),
{
    assert forall|k: Rank| #[trigger] c.filter(of_rank::<T>(k)) == a.push(x).filter(
        of_rank::<T>(k),
    ) by {
        let p = of_rank::<T>(k);
        assert(c.filter(p) == b.push(x).filter(p));
        assert(b.filter(p) == a.filter(p));
        reveal(Seq::filter);
        assert(a.push(x).drop_last() =~= a);
        assert(b.push(x).drop_last() =~= b);
    }
    broadcast use vstd::seq_lib::group_to_multiset_ensures;

    assert(a.push(x).to_multiset() =~= b.push(x).to_multiset());
}

/// Sorts a list; elements of equal rank keep their order.
pub fn stable_sort<T: Ranked>(v: &mut Vec<T>)
    ensures
        sorts(old(v)@, final(v)@),
{
    let ghost all = v@;
    let n: usize = v.len();
    let mut out: Vec<T> = Vec::new();
    let mut done: usize = 0;
    proof {
        assert(all.take(0) =~= Seq::<T>::empty());
        assert(all.skip(0) =~= all);
        assert(out@ =~= Seq::<T>::empty());
    }
    while done < n
        invariant
            n == all.len(),
            done <= n,
            v@ == all.skip(done as int),
            sorts(all.take(done as int), out@),
            out@.len() == done,
        decreases n - done,
    {
        let x: T = v.remove(0);
        let mut at: usize = out.len();
        while at > 0 && x.before(&out[at - 1])
            invariant
                at <= out@.len(),
                forall|i: int|
                    at <= i < out@.len() ==> rank_before(x.rank(), (#[trigger] out@[i]).rank()),
            decreases at,
        {
            at -= 1;
        }
        proof {
            if at > 0 {
                assert forall|i: int| 0 <= i < at implies !rank_before(
                    x.rank(),
                    (#[trigger] out@[i]).rank(),
                ) by {
                    lemma_rank_order(
                        x.rank(),
                        out@[i].rank(),
                        out@[at - 1].rank(),
                    );
                    lemma_rank_order(
                        out@[at - 1].rank(),
                        out@[i].rank(),
                        x.rank(),
                    );
                    if i < at - 1 {
                        assert(!rank_before(out@[at - 1].rank(), out@[i].rank()));
                    }
                }
            }
            lemma_insert(out@, x, at as int);
        }
        let ghost before = out@;
        out.insert(at, x);
        proof {
            lemma_sorts_more(all.take(done as int), before, x, out@);
            assert(all.take(done as int).push(x) =~= all.take(done as int + 1));
            assert(v@ =~= all.skip(done as int + 1));
        }
        done += 1;
    }
    proof {
        assert(all.take(n as int) =~= all);
    }
    *v = out;
}

/// A text comes before what it is only the beginning of, and the first
/// characters that differ decide, the smaller one first.
pub proof fn lemma_text_before(head: Seq<char>, c: char, d: char, x: Seq<char>, y: Seq<char>)
    ensures
        c < d ==> text_before(head + (seq![c] + x), head + (seq![d] + y)),
        c > d ==> !text_before(head + (seq![c] + x), head + (seq![d] + y)),
        text_before(head, head + (seq![c] + x)),
        !text_before(head + (seq![c] + x), head),
        !text_before(head, head),
    decreases head.len(),
{
    let a = head + (seq![c] + x);
    let b = head + (seq![d] + y);
    if head.len() == 0 {
        assert(a[0] == c && b[0] == d);
    } else {
        lemma_text_before(head.skip(1), c, d, x, y);
        assert(a.skip(1) =~= head.skip(1) + (seq![c] + x));
        assert(b.skip(1) =~= head.skip(1) + (seq![d] + y));
        assert(a[0] == head[0] && b[0] == head[0]);
    }
}

/// The first number decides, smaller ones first; then the second, then the
/// name.
pub proof fn lemma_rank_before(a: Rank, b: Rank)
    ensures
        a.first < b.first ==> rank_before(a, b) && !rank_before(b, a),
        a.first == b.first && a.second < b.second ==> rank_before(a, b) && !rank_before(b, a),
        a.first == b.first && a.second == b.second ==> rank_before(a, b) == text_before(
            a.name,
            b.name,
        ),
{
}

/// What is sorted has the same elements, and none with a smaller number stands
/// behind one with a larger.
pub proof fn lemma_sorted<T: Ranked>(before: Seq<T>, after: Seq<T>, i: int, j: int)
    requires
        sorts(before, after),
        0 <= i < j < after.len(),
    ensures
        after.to_multiset() == before.to_multiset(),
        after[i].rank().first <= after[j].rank().first,
        after[i].rank().first == after[j].rank().first ==> after[i].rank().second
            <= after[j].rank().second,
        after[i].rank().first == after[j].rank().first && after[i].rank().second
            == after[j].rank().second ==> !text_before(after[j].rank().name, after[i].rank().name),
{
    assert(!rank_before(after[j].rank(), after[i].rank()));
}

} // verus!
