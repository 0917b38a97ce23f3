//! What a service description says to whoever reads it: the actions, the state
//! variables that their arguments relate to, and the variables of which
//! subscribers are told.

use vstd::prelude::*;

use crate::mediarenderer::desc::{
    action_text, actions_text, argument_text, arguments_text, av_transport_actions,
    av_transport_vars, connection_manager_actions, connection_manager_vars, declares, evented,
    has_var, related, rendering_control_actions, rendering_control_vars, scpd_head, scpd_text,
    values_text, vars_text, ActionView, VarView,
};
use crate::mediarenderer::echo::{free_of, lemma_find_shift};
use crate::mediarenderer::soap::{
    av_transport_spec, connection_manager_spec, rendering_control_spec, SessionView,
};
use crate::renderer::PlaybackState;
use crate::text::{find_from, index_of, lemma_find_from, lemma_index_of, matches_at};

verus! {

/// A text up to the next tag.
pub open spec fn up_to_tag(x: Seq<char>) -> Seq<char> {
    match index_of(x, '<', 0) {
        Some(i) => x.take(i),
        None => x,
    }
}

/// The texts that stand behind each occurrence of some tags, up to the next tag.
pub open spec fn texts_after(x: Seq<char>, mark: Seq<char>) -> Seq<Seq<char>>
    decreases x.len(),
{
    if mark.len() == 0 {
        Seq::empty()
    } else {
        match find_from(x, mark, 0) {
            None => Seq::empty(),
            Some(i) => {
                proof {
                    lemma_find_from(x, mark, 0);
                }
                let rest = x.skip(i + mark.len());
                seq![up_to_tag(rest)] + texts_after(rest, mark)
            },
        }
    }
}

/// What stands before the name of an action.
pub open spec fn action_mark() -> Seq<char> {
    "<action><name>"@
}

/// What stands before the name of a state variable that an argument relates to.
pub open spec fn related_mark() -> Seq<char> {
    "<relatedStateVariable>"@
}

/// What stands before the name of a state variable.
pub open spec fn var_mark(send_events: bool) -> Seq<char> {
    "<stateVariable sendEvents=\""@ + (if send_events {
        "yes"@
    } else {
        "no"@
    }) + "\"><name>"@
}

/// One of those.
pub open spec fn is_mark(m: Seq<char>) -> bool {
    m == action_mark() || m == related_mark() || m == var_mark(true) || m == var_mark(false)
}

/// A text differs from a mark a few characters behind a position.
pub open spec fn differs(p: Seq<char>, i: int, m: Seq<char>, k: int) -> bool {
    k < m.len() && i + k < p.len() && p[i + k] != m[k]
}

/// Whether no mark begins within a text, whatever follows.
pub open spec fn clear(p: Seq<char>, m: Seq<char>) -> bool {
    forall|i: int|
        0 <= i < p.len() && #[trigger] p[i] == '<' ==> differs(p, i, m, 1) || differs(p, i, m, 2)
            || differs(p, i, m, 7) || differs(p, i, m, 27)
}

proof fn lemma_free_clear(p: Seq<char>, m: Seq<char>)
    requires
        free_of(p, '<'),
    ensures
        clear(p, m),
{
}

proof fn lemma_clear_join(a: Seq<char>, b: Seq<char>, m: Seq<char>)
    requires
        clear(a, m),
        clear(b, m),
    ensures
        clear(a + b, m),
{
    let s = a + b;
    assert forall|i: int| 0 <= i < s.len() && #[trigger] s[i] == '<' implies differs(s, i, m, 1)
        || differs(s, i, m, 2) || differs(s, i, m, 7) || differs(s, i, m, 27) by {
        if i < a.len() {
            assert(a[i] == '<');
            assert(differs(a, i, m, 1) ==> differs(s, i, m, 1));
            assert(differs(a, i, m, 2) ==> differs(s, i, m, 2));
            assert(differs(a, i, m, 7) ==> differs(s, i, m, 7));
            assert(differs(a, i, m, 27) ==> differs(s, i, m, 27));
        } else {
            let j = i - a.len();
            assert(b[j] == '<');
            assert(differs(b, j, m, 1) ==> differs(s, i, m, 1));
            assert(differs(b, j, m, 2) ==> differs(s, i, m, 2));
            assert(differs(b, j, m, 7) ==> differs(s, i, m, 7));
            assert(differs(b, j, m, 27) ==> differs(s, i, m, 27));
        }
    }
}

proof fn lemma_find_jump(s: Seq<char>, m: Seq<char>, from: int, to: int)
    requires
        0 <= from <= to,
        m.len() > 0,
        to <= s.len(),
        forall|j: int| from <= j < to ==> !matches_at(s, m, j),
    ensures
        find_from(s, m, from) == find_from(s, m, to),
{
    lemma_find_from(s, m, from);
    lemma_find_from(s, m, to);
    match (find_from(s, m, from), find_from(s, m, to)) {
        (Some(i), Some(j)) => {
            if i < j {
                assert(!matches_at(s, m, i));
            }
            if j < i {
                assert(!matches_at(s, m, j));
            }
        },
        (Some(i), None) => {
            assert(!matches_at(s, m, i));
        },
        (None, Some(j)) => {
            assert(!matches_at(s, m, j));
        },
        (None, None) => {},
    }
}

/// A text without a mark does not matter.
proof fn lemma_clear_skip(p: Seq<char>, x: Seq<char>, m: Seq<char>)
    requires
        clear(p, m),
        m.len() > 0,
        m[0] == '<',
    ensures
        texts_after(p + x, m) == texts_after(x, m),
{
    let s = p + x;
    assert forall|j: int| 0 <= j < p.len() implies !matches_at(s, m, j) by {
        if matches_at(s, m, j) {
            let cut = s.subrange(j, j + m.len());
            assert(cut == m);
            assert(cut[0] == s[j]);
            assert(p[j] == '<');
            assert forall|k: int| differs(p, j, m, k) && 0 <= k implies false by {
                assert(cut[k] == s[j + k]);
                assert(s[j + k] == p[j + k]);
            }
        }
    }
    lemma_find_jump(s, m, 0, p.len() as int);
    lemma_find_shift(p, x, m, 0);
    lemma_find_from(x, m, 0);
    if let Some(i) = find_from(x, m, 0) {
        assert(s.skip(i + p.len() + m.len()) =~= x.skip(i + m.len()));
    }
}

/// A mark and the text behind it.
proof fn lemma_mark_hit(m: Seq<char>, name: Seq<char>, x: Seq<char>)
    requires
        m.len() > 0,
        m[0] == '<',
        free_of(name, '<'),
        x.len() > 0,
        x[0] == '<',
    ensures
        texts_after(m + name + x, m) == seq![name] + texts_after(x, m),
{
    let s = m + name + x;
    let rest = name + x;
    assert(s.subrange(0, m.len() as int) =~= m);
    assert(matches_at(s, m, 0));
    lemma_find_from(s, m, 0);
    assert(s.skip(m.len() as int) =~= rest);
    assert forall|i: int| 0 <= i < name.len() implies #[trigger] rest[i] != '<' by {
        assert(rest[i] == name[i]);
    }
    assert(rest[name.len() as int] == '<');
    lemma_index_of(rest, '<', 0);
    assert(index_of(rest, '<', 0) == Some(name.len() as int));
    assert(rest.take(name.len() as int) =~= name);
    lemma_free_clear(name, m);
    lemma_clear_skip(name, x, m);
}

/// What tells the marks apart.
pub open spec fn mark_like(m: Seq<char>) -> bool {
    &&& m.len() > 2
    &&& m[0] == '<'
    &&& {
        ||| m[1] == 'a' && m[2] == 'c' && m.len() == 14 && m[7] == '>'
        ||| m[1] == 'r' && m[2] == 'e'
        ||| m[1] == 's' && m[2] == 't'
    }
}

proof fn lemma_marks()
    ensures
        mark_like(action_mark()) && action_mark()[1] == 'a',
        mark_like(related_mark()) && related_mark()[1] == 'r',
        mark_like(var_mark(true)) && var_mark(true)[1] == 's' && var_mark(true).len() > 27
            && var_mark(true)[27] == 'y',
        mark_like(var_mark(false)) && var_mark(false)[1] == 's' && var_mark(false).len() > 27
            && var_mark(false)[27] == 'n',
{
    reveal_strlit("<action><name>");
    reveal_strlit("<relatedStateVariable>");
    reveal_strlit("<stateVariable sendEvents=\"");
    reveal_strlit("yes");
    reveal_strlit("no");
    reveal_strlit("\"><name>");
}

proof fn lemma_clear_a(m: Seq<char>)
    requires
        mark_like(m),
    ensures
        clear("<argument><name>"@, m),
        clear("</name><direction>"@, m),
        clear("</direction>"@, m),
        clear("</relatedStateVariable></argument>"@, m),
{
    reveal_strlit("<argument><name>");
    reveal_strlit("</name><direction>");
    reveal_strlit("</direction>");
    reveal_strlit("</relatedStateVariable></argument>");
}

proof fn lemma_clear_b(m: Seq<char>)
    requires
        mark_like(m),
    ensures
        clear("</name><argumentList>"@, m),
        clear("</argumentList></action>"@, m),
        clear("</actionList>\n<serviceStateTable>"@, m),
        clear("</name><dataType>"@, m),
{
    reveal_strlit("</name><argumentList>");
    reveal_strlit("</argumentList></action>");
    reveal_strlit("</actionList>\n<serviceStateTable>");
    reveal_strlit("</name><dataType>");
}

proof fn lemma_clear_c(m: Seq<char>)
    requires
        mark_like(m),
    ensures
        clear("</dataType>"@, m),
        clear("<allowedValueList>"@, m),
        clear("<allowedValue>"@, m),
        clear("</allowedValue>"@, m),
{
    reveal_strlit("</dataType>");
    reveal_strlit("<allowedValueList>");
    reveal_strlit("<allowedValue>");
    reveal_strlit("</allowedValue>");
}

proof fn lemma_clear_d(m: Seq<char>)
    requires
        mark_like(m),
    ensures
        clear("</allowedValueList>"@, m),
        clear("</stateVariable>"@, m),
        clear("</serviceStateTable>\n</scpd>"@, m),
        clear("<?xml version=\"1.0\" encoding=\"utf-8\"?>\n"@, m),
{
    reveal_strlit("</allowedValueList>");
    reveal_strlit("</stateVariable>");
    reveal_strlit("</serviceStateTable>\n</scpd>");
    reveal_strlit("<?xml version=\"1.0\" encoding=\"utf-8\"?>\n");
}

proof fn lemma_clear_e(m: Seq<char>)
    requires
        mark_like(m),
    ensures
        clear("<scpd xmlns=\"urn:schemas-upnp-org:service-1-0\">\n"@, m),
        clear("<specVersion><major>1</major><minor>0</minor></specVersion>\n"@, m),
        clear("<actionList>"@, m),
{
    reveal_strlit("<scpd xmlns=\"urn:schemas-upnp-org:service-1-0\">\n");
    reveal_strlit("<specVersion><major>1</major><minor>0</minor></specVersion>\n");
    reveal_strlit("<actionList>");
}

/// A mark is none of the others.
proof fn lemma_other_marks(m: Seq<char>)
    requires
        is_mark(m),
    ensures
        m != action_mark() ==> clear(action_mark(), m),
        m != related_mark() ==> clear(related_mark(), m),
        m != var_mark(true) ==> clear(var_mark(true), m),
        m != var_mark(false) ==> clear(var_mark(false), m),
{
    lemma_marks();
    reveal_strlit("<action><name>");
    reveal_strlit("<relatedStateVariable>");
    reveal_strlit("<stateVariable sendEvents=\"");
    reveal_strlit("yes");
    reveal_strlit("no");
    reveal_strlit("\"><name>");
}

proof fn lemma_lits(m: Seq<char>)
    requires
        mark_like(m),
    ensures
        clear("<argument><name>"@, m),
        clear("</name><direction>"@, m),
        clear("</direction>"@, m),
        clear("</relatedStateVariable></argument>"@, m),
        clear("</name><argumentList>"@, m),
        clear("</argumentList></action>"@, m),
{
    lemma_clear_a(m);
    lemma_clear_b(m);
}

/// Whether all that an action says is without a tag.
pub open spec fn plain_action(a: ActionView) -> bool {
    &&& free_of(a.name, '<')
    &&& forall|j: int|
        0 <= j < a.args.len() ==> free_of((#[trigger] a.args[j]).0, '<') && free_of(a.args[j].1, '<')
            && free_of(a.args[j].2, '<')
}

/// Whether all that a state variable says is without a tag.
pub open spec fn plain_var(v: VarView) -> bool {
    &&& free_of(v.name, '<')
    &&& free_of(v.ty, '<')
    &&& forall|j: int| 0 <= j < v.allowed.len() ==> free_of(#[trigger] v.allowed[j], '<')
}

/// The state variables that the arguments of an action relate to.
pub open spec fn related_names(
    args: Seq<(Seq<char>, Seq<char>, Seq<char>)>,
) -> Seq<Seq<char>> {
    args.map_values(|a: (Seq<char>, Seq<char>, Seq<char>)| a.2)
}

/// What the arguments of an action say behind a mark.
pub open spec fn said_by_args(
    args: Seq<(Seq<char>, Seq<char>, Seq<char>)>,
    m: Seq<char>,
) -> Seq<Seq<char>> {
    if m == related_mark() {
        related_names(args)
    } else {
        Seq::empty()
    }
}

proof fn lemma_argument(a: (Seq<char>, Seq<char>, Seq<char>), x: Seq<char>, m: Seq<char>)
    requires
        is_mark(m),
        free_of(a.0, '<') && free_of(a.1, '<') && free_of(a.2, '<'),
    ensures
        texts_after(argument_text(a) + x, m) == (if m == related_mark() {
            seq![a.2]
        } else {
            Seq::empty()
        }) + texts_after(x, m),
{
    lemma_marks();
    lemma_lits(m);
    lemma_other_marks(m);
    let l1 = "<argument><name>"@;
    let l2 = "</name><direction>"@;
    let l3 = "</direction>"@;
    let l4 = "</relatedStateVariable></argument>"@;
    let r = related_mark();
    let front = l1 + a.0 + l2 + a.1 + l3;
    assert("</direction><relatedStateVariable>"@ =~= l3 + r) by {
        reveal_strlit("</direction><relatedStateVariable>");
        reveal_strlit("</direction>");
        reveal_strlit("<relatedStateVariable>");
    }
    lemma_free_clear(a.0, m);
    lemma_free_clear(a.1, m);
    lemma_free_clear(a.2, m);
    lemma_clear_join(l1, a.0, m);
    lemma_clear_join(l1 + a.0, l2, m);
    lemma_clear_join(l1 + a.0 + l2, a.1, m);
    lemma_clear_join(l1 + a.0 + l2 + a.1, l3, m);
    let rest = r + a.2 + (l4 + x);
    assert(argument_text(a) + x =~= front + rest);
    lemma_clear_skip(front, rest, m);
    assert((l4 + x).len() > 0 && (l4 + x)[0] == '<') by {
        reveal_strlit("</relatedStateVariable></argument>");
    }
    if m == r {
        lemma_mark_hit(r, a.2, l4 + x);
    } else {
        lemma_clear_join(r, a.2, m);
        lemma_clear_skip(r + a.2, l4 + x, m);
        assert(Seq::<Seq<char>>::empty() + texts_after(x, m) =~= texts_after(x, m));
    }
    lemma_clear_skip(l4, x, m);
}

proof fn lemma_arguments(
    args: Seq<(Seq<char>, Seq<char>, Seq<char>)>,
    x: Seq<char>,
    m: Seq<char>,
)
    requires
        is_mark(m),
        forall|j: int|
            0 <= j < args.len() ==> free_of((#[trigger] args[j]).0, '<') && free_of(args[j].1, '<')
                && free_of(args[j].2, '<'),
    ensures
        texts_after(arguments_text(args) + x, m) == said_by_args(args, m) + texts_after(x, m),
    decreases args.len(),
{
    if args.len() == 0 {
        assert(arguments_text(args) + x =~= x);
        assert(said_by_args(args, m) + texts_after(x, m) =~= texts_after(x, m));
    } else {
        let front = args.drop_last();
        let last = args.last();
        assert forall|j: int| 0 <= j < front.len() implies free_of((#[trigger] front[j]).0, '<')
            && free_of(front[j].1, '<') && free_of(front[j].2, '<') by {
            assert(front[j] == args[j]);
        }
        assert(args[args.len() - 1] == last);
        assert(arguments_text(args) + x =~= arguments_text(front) + (argument_text(last) + x));
        lemma_arguments(front, argument_text(last) + x, m);
        lemma_argument(last, x, m);
        assert(said_by_args(args, m) + texts_after(x, m) =~= said_by_args(front, m) + ((if m
            == related_mark() {
            seq![last.2]
        } else {
            Seq::empty()
        }) + texts_after(x, m)));
    }
}

/// What actions say behind a mark.
pub open spec fn said_by_actions(actions: Seq<ActionView>, m: Seq<char>) -> Seq<Seq<char>>
    decreases actions.len(),
{
    if actions.len() == 0 {
        Seq::empty()
    } else {
        said_by_actions(actions.drop_last(), m) + (if m == action_mark() {
            seq![actions.last().name]
        } else {
            said_by_args(actions.last().args, m)
        })
    }
}

proof fn lemma_action(a: ActionView, x: Seq<char>, m: Seq<char>)
    requires
        is_mark(m),
        plain_action(a),
    ensures
        texts_after(action_text(a.name, a.args) + x, m) == (if m == action_mark() {
            seq![a.name]
        } else {
            said_by_args(a.args, m)
        }) + texts_after(x, m),
{
    lemma_marks();
    lemma_lits(m);
    lemma_other_marks(m);
    let k = action_mark();
    let l1 = "</name><argumentList>"@;
    let l2 = "</argumentList></action>"@;
    let tail = arguments_text(a.args) + (l2 + x);
    assert(action_text(a.name, a.args) + x =~= k + a.name + (l1 + tail));
    assert((l1 + tail).len() > 0 && (l1 + tail)[0] == '<') by {
        reveal_strlit("</name><argumentList>");
    }
    lemma_free_clear(a.name, m);
    lemma_clear_skip(l1, tail, m);
    lemma_arguments(a.args, l2 + x, m);
    lemma_clear_skip(l2, x, m);
    if m == k {
        lemma_mark_hit(k, a.name, l1 + tail);
        assert(said_by_args(a.args, m) + texts_after(x, m) =~= texts_after(x, m));
    } else {
        lemma_clear_join(k, a.name, m);
        lemma_clear_skip(k + a.name, l1 + tail, m);
    }
}

proof fn lemma_actions(actions: Seq<ActionView>, x: Seq<char>, m: Seq<char>)
    requires
        is_mark(m),
        forall|k: int| 0 <= k < actions.len() ==> plain_action(#[trigger] actions[k]),
    ensures
        texts_after(actions_text(actions) + x, m) == said_by_actions(actions, m) + texts_after(
            x,
            m,
        ),
    decreases actions.len(),
{
    if actions.len() == 0 {
        assert(actions_text(actions) + x =~= x);
        assert(said_by_actions(actions, m) + texts_after(x, m) =~= texts_after(x, m));
    } else {
        let front = actions.drop_last();
        let last = actions.last();
        assert forall|k: int| 0 <= k < front.len() implies plain_action(#[trigger] front[k]) by {
            assert(front[k] == actions[k]);
        }
        assert(actions[actions.len() - 1] == last);
        let own = if m == action_mark() {
            seq![last.name]
        } else {
            said_by_args(last.args, m)
        };
        let text = action_text(last.name, last.args);
        assert(actions_text(actions) + x =~= actions_text(front) + (text + x));
        lemma_actions(front, text + x, m);
        lemma_action(last, x, m);
        assert(said_by_actions(front, m) + own + texts_after(x, m) =~= said_by_actions(front, m) + (
        own + texts_after(x, m)));
    }
}

/// The names of the state variables of which subscribers are told, or of the
/// others.
pub open spec fn var_names(vars: Seq<VarView>, send_events: bool) -> Seq<Seq<char>>
    decreases vars.len(),
{
    if vars.len() == 0 {
        Seq::empty()
    } else {
        var_names(vars.drop_last(), send_events) + (if vars.last().send_events == send_events {
            seq![vars.last().name]
        } else {
            Seq::empty()
        })
    }
}

/// What state variables say behind a mark.
pub open spec fn said_by_vars(vars: Seq<VarView>, m: Seq<char>) -> Seq<Seq<char>> {
    if m == var_mark(true) {
        var_names(vars, true)
    } else if m == var_mark(false) {
        var_names(vars, false)
    } else {
        Seq::empty()
    }
}

proof fn lemma_values(values: Seq<Seq<char>>, m: Seq<char>)
    requires
        mark_like(m),
        forall|j: int| 0 <= j < values.len() ==> free_of(#[trigger] values[j], '<'),
    ensures
        clear(values_text(values), m),
    decreases values.len(),
{
    if values.len() > 0 {
        let front = values.drop_last();
        assert forall|j: int| 0 <= j < front.len() implies free_of(#[trigger] front[j], '<') by {
            assert(front[j] == values[j]);
        }
        lemma_values(front, m);
        let last = values.last();
        assert(values[values.len() - 1] == last);
        lemma_clear_c(m);
        lemma_free_clear(last, m);
        lemma_clear_join("<allowedValue>"@, last, m);
        lemma_clear_join("<allowedValue>"@ + last, "</allowedValue>"@, m);
        lemma_clear_join(
            values_text(front),
            "<allowedValue>"@ + last + "</allowedValue>"@,
            m,
        );
    }
}

proof fn lemma_var(v: VarView, x: Seq<char>, m: Seq<char>)
    requires
        is_mark(m),
        plain_var(v),
    ensures
        texts_after(v.text() + x, m) == (if m == var_mark(v.send_events) {
            seq![v.name]
        } else {
            Seq::empty()
        }) + texts_after(x, m),
{
    lemma_marks();
    lemma_clear_b(m);
    lemma_clear_c(m);
    lemma_clear_d(m);
    lemma_other_marks(m);
    let k = var_mark(v.send_events);
    let l1 = "</name><dataType>"@;
    let l2 = "</dataType>"@;
    let l3 = "</stateVariable>"@;
    let list = if v.allowed.len() == 0 {
        Seq::<char>::empty()
    } else {
        "<allowedValueList>"@ + values_text(v.allowed) + "</allowedValueList>"@
    };
    lemma_values(v.allowed, m);
    lemma_clear_join("<allowedValueList>"@, values_text(v.allowed), m);
    lemma_clear_join(
        "<allowedValueList>"@ + values_text(v.allowed),
        "</allowedValueList>"@,
        m,
    );
    assert(clear(list, m));
    lemma_free_clear(v.name, m);
    lemma_free_clear(v.ty, m);
    let tail = l1 + v.ty + l2 + list + l3;
    lemma_clear_join(l1, v.ty, m);
    lemma_clear_join(l1 + v.ty, l2, m);
    lemma_clear_join(l1 + v.ty + l2, list, m);
    lemma_clear_join(l1 + v.ty + l2 + list, l3, m);
    assert(v.text() + x =~= k + v.name + (tail + x));
    assert((tail + x).len() > 0 && (tail + x)[0] == '<') by {
        reveal_strlit("</name><dataType>");
    }
    lemma_clear_skip(tail, x, m);
    if m == k {
        lemma_mark_hit(k, v.name, tail + x);
    } else {
        lemma_clear_join(k, v.name, m);
        lemma_clear_skip(k + v.name, tail + x, m);
        assert(Seq::<Seq<char>>::empty() + texts_after(x, m) =~= texts_after(x, m));
    }
}

proof fn lemma_vars(vars: Seq<VarView>, x: Seq<char>, m: Seq<char>)
    requires
        is_mark(m),
        forall|k: int| 0 <= k < vars.len() ==> plain_var(#[trigger] vars[k]),
    ensures
        texts_after(vars_text(vars) + x, m) == said_by_vars(vars, m) + texts_after(x, m),
    decreases vars.len(),
{
    lemma_marks();
    if vars.len() == 0 {
        assert(vars_text(vars) + x =~= x);
        assert(said_by_vars(vars, m) + texts_after(x, m) =~= texts_after(x, m));
    } else {
        let front = vars.drop_last();
        let last = vars.last();
        assert forall|k: int| 0 <= k < front.len() implies plain_var(#[trigger] front[k]) by {
            assert(front[k] == vars[k]);
        }
        assert(vars[vars.len() - 1] == last);
        let own = if m == var_mark(last.send_events) {
            seq![last.name]
        } else {
            Seq::<Seq<char>>::empty()
        };
        assert(vars_text(vars) + x =~= vars_text(front) + (last.text() + x));
        lemma_vars(front, last.text() + x, m);
        lemma_var(last, x, m);
        assert(said_by_vars(vars, m) =~= said_by_vars(front, m) + own);
        assert(said_by_vars(front, m) + own + texts_after(x, m) =~= said_by_vars(front, m) + (own
            + texts_after(x, m)));
    }
}

/// A service description says what it was written with: behind each mark, what
/// its actions and its state variables say there, and nothing else.
pub proof fn lemma_scpd_read(actions: Seq<ActionView>, vars: Seq<VarView>, m: Seq<char>)
    requires
        is_mark(m),
        forall|k: int| 0 <= k < actions.len() ==> plain_action(#[trigger] actions[k]),
        forall|k: int| 0 <= k < vars.len() ==> plain_var(#[trigger] vars[k]),
    ensures
        texts_after(scpd_text(actions, vars), m) == said_by_actions(actions, m) + said_by_vars(
            vars,
            m,
        ),
{
    lemma_marks();
    lemma_clear_b(m);
    lemma_clear_d(m);
    lemma_clear_e(m);
    let h1 = "<?xml version=\"1.0\" encoding=\"utf-8\"?>\n"@;
    let h2 = "<scpd xmlns=\"urn:schemas-upnp-org:service-1-0\">\n"@;
    let h3 = "<specVersion><major>1</major><minor>0</minor></specVersion>\n"@;
    let h4 = "<actionList>"@;
    lemma_clear_join(h1, h2, m);
    lemma_clear_join(h1 + h2, h3, m);
    lemma_clear_join(h1 + h2 + h3, h4, m);
    let mid = "</actionList>\n<serviceStateTable>"@;
    let end = "</serviceStateTable>\n</scpd>"@;
    let x2 = vars_text(vars) + end;
    let x1 = actions_text(actions) + (mid + x2);
    assert(scpd_text(actions, vars) =~= scpd_head() + x1);
    lemma_clear_skip(scpd_head(), x1, m);
    lemma_actions(actions, mid + x2, m);
    lemma_clear_skip(mid, x2, m);
    lemma_vars(vars, end, m);
    let none = Seq::<char>::empty();
    assert(end + none =~= end);
    lemma_clear_skip(end, none, m);
    lemma_find_from(none, m, 0);
    assert(texts_after(none, m) =~= Seq::empty());
    assert(said_by_vars(vars, m) + Seq::<Seq<char>>::empty() =~= said_by_vars(vars, m));
}

// ---------------------------------------------------------------------------
// The services
// ---------------------------------------------------------------------------

proof fn lemma_words_a()
    ensures
        free_of("1"@, '<'),
        free_of("ABS_TIME"@, '<'),
        free_of("AVTransportID"@, '<'),
        free_of("AVTransportURI"@, '<'),
        free_of("AVTransportURIMetaData"@, '<'),
        free_of("A_ARG_TYPE_AVTransportID"@, '<'),
        free_of("A_ARG_TYPE_Channel"@, '<'),
        free_of("A_ARG_TYPE_ConnectionID"@, '<'),
        free_of("A_ARG_TYPE_ConnectionManager"@, '<'),
        free_of("A_ARG_TYPE_ConnectionStatus"@, '<'),
        free_of("A_ARG_TYPE_Direction"@, '<'),
        free_of("A_ARG_TYPE_InstanceID"@, '<'),
{
    reveal_strlit("1");
    reveal_strlit("ABS_TIME");
    reveal_strlit("AVTransportID");
    reveal_strlit("AVTransportURI");
    reveal_strlit("AVTransportURIMetaData");
    reveal_strlit("A_ARG_TYPE_AVTransportID");
    reveal_strlit("A_ARG_TYPE_Channel");
    reveal_strlit("A_ARG_TYPE_ConnectionID");
    reveal_strlit("A_ARG_TYPE_ConnectionManager");
    reveal_strlit("A_ARG_TYPE_ConnectionStatus");
    reveal_strlit("A_ARG_TYPE_Direction");
    reveal_strlit("A_ARG_TYPE_InstanceID");
}

proof fn lemma_words_b()
    ensures
        free_of("A_ARG_TYPE_ProtocolInfo"@, '<'),
        free_of("A_ARG_TYPE_RcsID"@, '<'),
        free_of("A_ARG_TYPE_SeekMode"@, '<'),
        free_of("A_ARG_TYPE_SeekTarget"@, '<'),
        free_of("AbsCount"@, '<'),
        free_of("AbsTime"@, '<'),
        free_of("AbsoluteCounterPosition"@, '<'),
        free_of("AbsoluteTimePosition"@, '<'),
        free_of("Channel"@, '<'),
        free_of("ConnectionID"@, '<'),
        free_of("ConnectionIDs"@, '<'),
        free_of("CurrentConnectionIDs"@, '<'),
{
    reveal_strlit("A_ARG_TYPE_ProtocolInfo");
    reveal_strlit("A_ARG_TYPE_RcsID");
    reveal_strlit("A_ARG_TYPE_SeekMode");
    reveal_strlit("A_ARG_TYPE_SeekTarget");
    reveal_strlit("AbsCount");
    reveal_strlit("AbsTime");
    reveal_strlit("AbsoluteCounterPosition");
    reveal_strlit("AbsoluteTimePosition");
    reveal_strlit("Channel");
    reveal_strlit("ConnectionID");
    reveal_strlit("ConnectionIDs");
    reveal_strlit("CurrentConnectionIDs");
}

proof fn lemma_words_c()
    ensures
        free_of("CurrentMediaDuration"@, '<'),
        free_of("CurrentMute"@, '<'),
        free_of("CurrentPlayMode"@, '<'),
        free_of("CurrentRecordQualityMode"@, '<'),
        free_of("CurrentSpeed"@, '<'),
        free_of("CurrentTrack"@, '<'),
        free_of("CurrentTrackDuration"@, '<'),
        free_of("CurrentTrackMetaData"@, '<'),
        free_of("CurrentTrackURI"@, '<'),
        free_of("CurrentTransportState"@, '<'),
        free_of("CurrentTransportStatus"@, '<'),
        free_of("CurrentURI"@, '<'),
{
    reveal_strlit("CurrentMediaDuration");
    reveal_strlit("CurrentMute");
    reveal_strlit("CurrentPlayMode");
    reveal_strlit("CurrentRecordQualityMode");
    reveal_strlit("CurrentSpeed");
    reveal_strlit("CurrentTrack");
    reveal_strlit("CurrentTrackDuration");
    reveal_strlit("CurrentTrackMetaData");
    reveal_strlit("CurrentTrackURI");
    reveal_strlit("CurrentTransportState");
    reveal_strlit("CurrentTransportStatus");
    reveal_strlit("CurrentURI");
}

proof fn lemma_words_d()
    ensures
        free_of("CurrentURIMetaData"@, '<'),
        free_of("CurrentVolume"@, '<'),
        free_of("DesiredMute"@, '<'),
        free_of("DesiredVolume"@, '<'),
        free_of("Direction"@, '<'),
        free_of("ERROR_OCCURRED"@, '<'),
        free_of("GetCurrentConnectionIDs"@, '<'),
        free_of("GetCurrentConnectionInfo"@, '<'),
        free_of("GetDeviceCapabilities"@, '<'),
        free_of("GetMediaInfo"@, '<'),
        free_of("GetMute"@, '<'),
        free_of("GetPositionInfo"@, '<'),
{
    reveal_strlit("CurrentURIMetaData");
    reveal_strlit("CurrentVolume");
    reveal_strlit("DesiredMute");
    reveal_strlit("DesiredVolume");
    reveal_strlit("Direction");
    reveal_strlit("ERROR_OCCURRED");
    reveal_strlit("GetCurrentConnectionIDs");
    reveal_strlit("GetCurrentConnectionInfo");
    reveal_strlit("GetDeviceCapabilities");
    reveal_strlit("GetMediaInfo");
    reveal_strlit("GetMute");
    reveal_strlit("GetPositionInfo");
}

proof fn lemma_words_e()
    ensures
        free_of("GetProtocolInfo"@, '<'),
        free_of("GetTransportInfo"@, '<'),
        free_of("GetTransportSettings"@, '<'),
        free_of("GetVolume"@, '<'),
        free_of("Input"@, '<'),
        free_of("InstanceID"@, '<'),
        free_of("LastChange"@, '<'),
        free_of("Master"@, '<'),
        free_of("MediaDuration"@, '<'),
        free_of("Mute"@, '<'),
        free_of("NORMAL"@, '<'),
        free_of("NO_MEDIA_PRESENT"@, '<'),
{
    reveal_strlit("GetProtocolInfo");
    reveal_strlit("GetTransportInfo");
    reveal_strlit("GetTransportSettings");
    reveal_strlit("GetVolume");
    reveal_strlit("Input");
    reveal_strlit("InstanceID");
    reveal_strlit("LastChange");
    reveal_strlit("Master");
    reveal_strlit("MediaDuration");
    reveal_strlit("Mute");
    reveal_strlit("NORMAL");
    reveal_strlit("NO_MEDIA_PRESENT");
}

proof fn lemma_words_f()
    ensures
        free_of("Next"@, '<'),
        free_of("NextAVTransportURI"@, '<'),
        free_of("NextAVTransportURIMetaData"@, '<'),
        free_of("NextURI"@, '<'),
        free_of("NextURIMetaData"@, '<'),
        free_of("NrTracks"@, '<'),
        free_of("NumberOfTracks"@, '<'),
        free_of("OK"@, '<'),
        free_of("Output"@, '<'),
        free_of("PAUSED_PLAYBACK"@, '<'),
        free_of("PLAYING"@, '<'),
        free_of("Pause"@, '<'),
{
    reveal_strlit("Next");
    reveal_strlit("NextAVTransportURI");
    reveal_strlit("NextAVTransportURIMetaData");
    reveal_strlit("NextURI");
    reveal_strlit("NextURIMetaData");
    reveal_strlit("NrTracks");
    reveal_strlit("NumberOfTracks");
    reveal_strlit("OK");
    reveal_strlit("Output");
    reveal_strlit("PAUSED_PLAYBACK");
    reveal_strlit("PLAYING");
    reveal_strlit("Pause");
}

proof fn lemma_words_g()
    ensures
        free_of("PeerConnectionID"@, '<'),
        free_of("PeerConnectionManager"@, '<'),
        free_of("Play"@, '<'),
        free_of("PlayMedia"@, '<'),
        free_of("PlayMedium"@, '<'),
        free_of("PlayMode"@, '<'),
        free_of("PlaybackStorageMedium"@, '<'),
        free_of("PossiblePlaybackStorageMedia"@, '<'),
        free_of("PossibleRecordQualityModes"@, '<'),
        free_of("PossibleRecordStorageMedia"@, '<'),
        free_of("Previous"@, '<'),
        free_of("ProtocolInfo"@, '<'),
{
    reveal_strlit("PeerConnectionID");
    reveal_strlit("PeerConnectionManager");
    reveal_strlit("Play");
    reveal_strlit("PlayMedia");
    reveal_strlit("PlayMedium");
    reveal_strlit("PlayMode");
    reveal_strlit("PlaybackStorageMedium");
    reveal_strlit("PossiblePlaybackStorageMedia");
    reveal_strlit("PossibleRecordQualityModes");
    reveal_strlit("PossibleRecordStorageMedia");
    reveal_strlit("Previous");
    reveal_strlit("ProtocolInfo");
}

proof fn lemma_words_h()
    ensures
        free_of("REL_TIME"@, '<'),
        free_of("RcsID"@, '<'),
        free_of("RecMedia"@, '<'),
        free_of("RecQualityMode"@, '<'),
        free_of("RecQualityModes"@, '<'),
        free_of("RecordMedium"@, '<'),
        free_of("RecordMediumWriteStatus"@, '<'),
        free_of("RecordStorageMedium"@, '<'),
        free_of("RelCount"@, '<'),
        free_of("RelTime"@, '<'),
        free_of("RelativeCounterPosition"@, '<'),
        free_of("RelativeTimePosition"@, '<'),
{
    reveal_strlit("REL_TIME");
    reveal_strlit("RcsID");
    reveal_strlit("RecMedia");
    reveal_strlit("RecQualityMode");
    reveal_strlit("RecQualityModes");
    reveal_strlit("RecordMedium");
    reveal_strlit("RecordMediumWriteStatus");
    reveal_strlit("RecordStorageMedium");
    reveal_strlit("RelCount");
    reveal_strlit("RelTime");
    reveal_strlit("RelativeCounterPosition");
    reveal_strlit("RelativeTimePosition");
}

proof fn lemma_words_i()
    ensures
        free_of("STOPPED"@, '<'),
        free_of("Seek"@, '<'),
        free_of("SetAVTransportURI"@, '<'),
        free_of("SetMute"@, '<'),
        free_of("SetNextAVTransportURI"@, '<'),
        free_of("SetVolume"@, '<'),
        free_of("Sink"@, '<'),
        free_of("SinkProtocolInfo"@, '<'),
        free_of("Source"@, '<'),
        free_of("SourceProtocolInfo"@, '<'),
        free_of("Speed"@, '<'),
        free_of("Status"@, '<'),
{
    reveal_strlit("STOPPED");
    reveal_strlit("Seek");
    reveal_strlit("SetAVTransportURI");
    reveal_strlit("SetMute");
    reveal_strlit("SetNextAVTransportURI");
    reveal_strlit("SetVolume");
    reveal_strlit("Sink");
    reveal_strlit("SinkProtocolInfo");
    reveal_strlit("Source");
    reveal_strlit("SourceProtocolInfo");
    reveal_strlit("Speed");
    reveal_strlit("Status");
}

proof fn lemma_words_j()
    ensures
        free_of("Stop"@, '<'),
        free_of("TRANSITIONING"@, '<'),
        free_of("Target"@, '<'),
        free_of("Track"@, '<'),
        free_of("TrackDuration"@, '<'),
        free_of("TrackMetaData"@, '<'),
        free_of("TrackURI"@, '<'),
        free_of("TransportPlaySpeed"@, '<'),
        free_of("TransportState"@, '<'),
        free_of("TransportStatus"@, '<'),
        free_of("Unit"@, '<'),
        free_of("Volume"@, '<'),
{
    reveal_strlit("Stop");
    reveal_strlit("TRANSITIONING");
    reveal_strlit("Target");
    reveal_strlit("Track");
    reveal_strlit("TrackDuration");
    reveal_strlit("TrackMetaData");
    reveal_strlit("TrackURI");
    reveal_strlit("TransportPlaySpeed");
    reveal_strlit("TransportState");
    reveal_strlit("TransportStatus");
    reveal_strlit("Unit");
    reveal_strlit("Volume");
}

proof fn lemma_words_k()
    ensures
        free_of("WriteStatus"@, '<'),
        free_of("boolean"@, '<'),
        free_of("i4"@, '<'),
        free_of("in"@, '<'),
        free_of("out"@, '<'),
        free_of("string"@, '<'),
        free_of("ui2"@, '<'),
        free_of("ui4"@, '<'),
{
    reveal_strlit("WriteStatus");
    reveal_strlit("boolean");
    reveal_strlit("i4");
    reveal_strlit("in");
    reveal_strlit("out");
    reveal_strlit("string");
    reveal_strlit("ui2");
    reveal_strlit("ui4");
}

proof fn lemma_av_transport_actions_plain()
    ensures
        forall|k: int|
            0 <= k < av_transport_actions().len() ==> plain_action(#[trigger] av_transport_actions()[k]),
{
    let t = av_transport_actions();
    lemma_words_a();
    lemma_words_b();
    lemma_words_c();
    lemma_words_d();
    lemma_words_e();
    lemma_words_f();
    lemma_words_g();
    lemma_words_h();
    lemma_words_i();
    lemma_words_j();
    lemma_words_k();
    assert(plain_action(t[0]));
    assert(plain_action(t[1]));
    assert(plain_action(t[2]));
    assert(plain_action(t[3]));
    assert(plain_action(t[4]));
    assert(plain_action(t[5]));
    assert(plain_action(t[6]));
    assert(plain_action(t[7]));
    assert(plain_action(t[8]));
    assert(plain_action(t[9]));
    assert(plain_action(t[10]));
    assert(plain_action(t[11]));
    assert(plain_action(t[12]));
}

proof fn lemma_av_transport_vars_plain()
    ensures
        forall|k: int| 0 <= k < av_transport_vars().len() ==> plain_var(#[trigger] av_transport_vars()[k]),
{
    let t = av_transport_vars();
    lemma_words_a();
    lemma_words_b();
    lemma_words_c();
    lemma_words_d();
    lemma_words_e();
    lemma_words_f();
    lemma_words_g();
    lemma_words_h();
    lemma_words_i();
    lemma_words_j();
    lemma_words_k();
    assert(plain_var(t[0]));
    assert(plain_var(t[1]));
    assert(plain_var(t[2]));
    assert(plain_var(t[3]));
    assert(plain_var(t[4]));
    assert(plain_var(t[5]));
    assert(plain_var(t[6]));
    assert(plain_var(t[7]));
    assert(plain_var(t[8]));
    assert(plain_var(t[9]));
    assert(plain_var(t[10]));
    assert(plain_var(t[11]));
    assert(plain_var(t[12]));
    assert(plain_var(t[13]));
    assert(plain_var(t[14]));
    assert(plain_var(t[15]));
    assert(plain_var(t[16]));
    assert(plain_var(t[17]));
    assert(plain_var(t[18]));
    assert(plain_var(t[19]));
    assert(plain_var(t[20]));
    assert(plain_var(t[21]));
    assert(plain_var(t[22]));
    assert(plain_var(t[23]));
    assert(plain_var(t[24]));
    assert(plain_var(t[25]));
    assert(plain_var(t[26]));
    assert(plain_var(t[27]));
    assert(plain_var(t[28]));
}

proof fn lemma_rendering_control_actions_plain()
    ensures
        forall|k: int|
            0 <= k < rendering_control_actions().len() ==> plain_action(#[trigger] rendering_control_actions()[k]),
{
    let t = rendering_control_actions();
    lemma_words_a();
    lemma_words_b();
    lemma_words_c();
    lemma_words_d();
    lemma_words_e();
    lemma_words_i();
    lemma_words_j();
    lemma_words_k();
    assert(plain_action(t[0]));
    assert(plain_action(t[1]));
    assert(plain_action(t[2]));
    assert(plain_action(t[3]));
}

proof fn lemma_rendering_control_vars_plain()
    ensures
        forall|k: int| 0 <= k < rendering_control_vars().len() ==> plain_var(#[trigger] rendering_control_vars()[k]),
{
    let t = rendering_control_vars();
    lemma_words_a();
    lemma_words_e();
    lemma_words_j();
    lemma_words_k();
    assert(plain_var(t[0]));
    assert(plain_var(t[1]));
    assert(plain_var(t[2]));
    assert(plain_var(t[3]));
    assert(plain_var(t[4]));
}

proof fn lemma_connection_manager_actions_plain()
    ensures
        forall|k: int|
            0 <= k < connection_manager_actions().len() ==> plain_action(#[trigger] connection_manager_actions()[k]),
{
    let t = connection_manager_actions();
    lemma_words_a();
    lemma_words_b();
    lemma_words_d();
    lemma_words_e();
    lemma_words_g();
    lemma_words_h();
    lemma_words_i();
    lemma_words_k();
    assert(plain_action(t[0]));
    assert(plain_action(t[1]));
    assert(plain_action(t[2]));
}

proof fn lemma_connection_manager_vars_plain()
    ensures
        forall|k: int| 0 <= k < connection_manager_vars().len() ==> plain_var(#[trigger] connection_manager_vars()[k]),
{
    let t = connection_manager_vars();
    lemma_words_a();
    lemma_words_b();
    lemma_words_e();
    lemma_words_f();
    lemma_words_i();
    lemma_words_k();
    assert(plain_var(t[0]));
    assert(plain_var(t[1]));
    assert(plain_var(t[2]));
    assert(plain_var(t[3]));
    assert(plain_var(t[4]));
    assert(plain_var(t[5]));
    assert(plain_var(t[6]));
    assert(plain_var(t[7]));
    assert(plain_var(t[8]));
    assert(plain_var(t[9]));
}

/// The names of actions, in their order.
pub open spec fn action_names(actions: Seq<ActionView>) -> Seq<Seq<char>> {
    actions.map_values(|a: ActionView| a.name)
}

proof fn lemma_names_said(actions: Seq<ActionView>)
    ensures
        said_by_actions(actions, action_mark()) == action_names(actions),
    decreases actions.len(),
{
    if actions.len() > 0 {
        lemma_names_said(actions.drop_last());
        assert(action_names(actions) =~= action_names(actions.drop_last()).push(
            actions.last().name,
        ));
        assert(said_by_actions(actions, action_mark()) =~= action_names(actions));
    } else {
        assert(action_names(actions) =~= Seq::empty());
    }
}

/// A name is read in a service description exactly where it declares an action
/// of that name.
proof fn lemma_declared(actions: Seq<ActionView>, vars: Seq<VarView>, name: Seq<char>)
    requires
        forall|k: int| 0 <= k < actions.len() ==> plain_action(#[trigger] actions[k]),
        forall|k: int| 0 <= k < vars.len() ==> plain_var(#[trigger] vars[k]),
    ensures
        texts_after(scpd_text(actions, vars), action_mark()).contains(name) == declares(
            actions,
            name,
        ),
{
    lemma_marks();
    lemma_scpd_read(actions, vars, action_mark());
    lemma_names_said(actions);
    let names = action_names(actions);
    assert(names + Seq::<Seq<char>>::empty() =~= names);
    if names.contains(name) {
        let k = choose|k: int| 0 <= k < names.len() && names[k] == name;
        assert(actions[k].name == name);
    }
    if declares(actions, name) {
        let k = choose|k: int| 0 <= k < actions.len() && (#[trigger] actions[k]).name == name;
        assert(names[k] == name);
    }
}

/// The AVTransport service calls an action invalid exactly where its
/// description has no action of that name. Then the session stays as it was, and
/// nothing is asked of the renderer.
pub proof fn lemma_av_transport_declared(
    s: SessionView,
    st: PlaybackState,
    action: Seq<char>,
    body: Seq<char>,
)
    ensures
        ({
            let declared = texts_after(
                scpd_text(av_transport_actions(), av_transport_vars()),
                action_mark(),
            ).contains(action);
            let (after, r) = av_transport_spec(s, st, action, body);
            &&& (r is Err && r->Err_0.number() == 401) == !declared
            &&& !declared ==> after == s
        }),
{
    lemma_av_transport_actions_plain();
    lemma_av_transport_vars_plain();
    lemma_declared(av_transport_actions(), av_transport_vars(), action);
    lemma_av_transport_answers(s, st, action, body);
}

/// The RenderingControl service calls an action invalid exactly where its
/// description has no action of that name.
pub proof fn lemma_rendering_control_declared(
    s: SessionView,
    st: PlaybackState,
    action: Seq<char>,
    body: Seq<char>,
)
    ensures
        ({
            let declared = texts_after(
                scpd_text(rendering_control_actions(), rendering_control_vars()),
                action_mark(),
            ).contains(action);
            let (after, r) = rendering_control_spec(s, st, action, body);
            &&& (r is Err && r->Err_0.number() == 401) == !declared
            &&& !declared ==> after == s
        }),
{
    lemma_rendering_control_actions_plain();
    lemma_rendering_control_vars_plain();
    lemma_declared(rendering_control_actions(), rendering_control_vars(), action);
    lemma_rendering_control_answers(s, st, action, body);
}

proof fn lemma_var_said(vars: Seq<VarView>, name: Seq<char>)
    ensures
        has_var(vars, name) ==> var_names(vars, true).contains(name) || var_names(
            vars,
            false,
        ).contains(name),
        evented(vars, name) == var_names(vars, true).contains(name),
    decreases vars.len(),
{
    if vars.len() > 0 {
        let front = vars.drop_last();
        let last = vars.last();
        lemma_var_said(front, name);
        let own = |send: bool| if last.send_events == send {
            seq![last.name]
        } else {
            Seq::<Seq<char>>::empty()
        };
        lemma_contains_join(var_names(front, true), own(true), name);
        lemma_contains_join(var_names(front, false), own(false), name);
        assert(own(true).contains(name) == (last.send_events && last.name == name)) by {
            if last.send_events {
                assert(own(true)[0] == last.name);
            }
        }
        assert(own(false).contains(name) == (!last.send_events && last.name == name)) by {
            if !last.send_events {
                assert(own(false)[0] == last.name);
            }
        }
        assert(vars[vars.len() - 1] == last);
        if has_var(vars, name) {
            let k = choose|k: int| 0 <= k < vars.len() && (#[trigger] vars[k]).name == name;
            if k < front.len() {
                assert(front[k].name == name);
            }
        }
        if evented(vars, name) {
            let k = choose|k: int|
                0 <= k < vars.len() && (#[trigger] vars[k]).name == name && vars[k].send_events;
            if k < front.len() {
                assert(front[k].name == name && front[k].send_events);
            }
        }
        if evented(front, name) {
            let k = choose|k: int|
                0 <= k < front.len() && (#[trigger] front[k]).name == name && front[k].send_events;
            assert(vars[k].name == name && vars[k].send_events);
        }
    }
}

proof fn lemma_contains_join(a: Seq<Seq<char>>, b: Seq<Seq<char>>, x: Seq<char>)
    ensures
        (a + b).contains(x) == (a.contains(x) || b.contains(x)),
{
    if a.contains(x) {
        let i = choose|i: int| 0 <= i < a.len() && a[i] == x;
        assert((a + b)[i] == x);
    }
    if b.contains(x) {
        let i = choose|i: int| 0 <= i < b.len() && b[i] == x;
        assert((a + b)[a.len() + i] == x);
    }
    if (a + b).contains(x) {
        let i = choose|i: int| 0 <= i < (a + b).len() && (a + b)[i] == x;
        if i < a.len() {
            assert(a[i] == x);
        } else {
            assert(b[i - a.len()] == x);
        }
    }
}

proof fn lemma_related_said(actions: Seq<ActionView>, vars: Seq<VarView>, name: Seq<char>)
    requires
        related(actions, vars),
        said_by_actions(actions, related_mark()).contains(name),
    ensures
        has_var(vars, name),
    decreases actions.len(),
{
    lemma_marks();
    if actions.len() > 0 {
        let front = actions.drop_last();
        let last = actions.last();
        assert(actions[actions.len() - 1] == last);
        let own = related_names(last.args);
        lemma_contains_join(said_by_actions(front, related_mark()), own, name);
        if own.contains(name) {
            let j = choose|j: int| 0 <= j < own.len() && own[j] == name;
            assert(actions[actions.len() - 1].args[j].2 == name);
        } else {
            assert forall|k: int, j: int|
                0 <= k < front.len() && 0 <= j < front[k].args.len() implies has_var(
                vars,
                (#[trigger] front[k].args[j]).2,
            ) by {
                assert(front[k] == actions[k]);
                assert(has_var(vars, actions[k].args[j].2));
            }
            lemma_related_said(front, vars, name);
        }
    }
}

/// The ConnectionManager service answers an action exactly where its
/// description has one of that name. Every state variable that an argument is
/// said to relate to is described too, and the variables of which subscribers are
/// told are those of the protocols and of the connections.
pub proof fn lemma_connection_manager_declared(name: Seq<char>)
    ensures
        ({
            let text = scpd_text(connection_manager_actions(), connection_manager_vars());
            &&& texts_after(text, action_mark()).contains(name) == (connection_manager_spec(name)
                is Ok)
            &&& texts_after(text, related_mark()).contains(name) ==> texts_after(
                text,
                var_mark(true),
            ).contains(name) || texts_after(text, var_mark(false)).contains(name)
            &&& texts_after(text, var_mark(true)).contains(name) == (name == "SourceProtocolInfo"@
                || name == "SinkProtocolInfo"@ || name == "CurrentConnectionIDs"@)
        }),
{
    let t = connection_manager_actions();
    let v = connection_manager_vars();
    let none = Seq::<Seq<char>>::empty();
    lemma_marks();
    lemma_connection_manager_actions_plain();
    lemma_connection_manager_vars_plain();
    lemma_declared(t, v, name);
    lemma_connection_manager_tables(name);
    lemma_scpd_read(t, v, related_mark());
    lemma_scpd_read(t, v, var_mark(true));
    lemma_scpd_read(t, v, var_mark(false));
    assert(said_by_actions(t, related_mark()) + none =~= said_by_actions(t, related_mark()));
    lemma_no_vars_in_actions(t, true);
    lemma_no_vars_in_actions(t, false);
    assert(none + var_names(v, true) =~= var_names(v, true));
    assert(none + var_names(v, false) =~= var_names(v, false));
    lemma_var_said(v, name);
    if said_by_actions(t, related_mark()).contains(name) {
        lemma_related_said(t, v, name);
    }
}

proof fn lemma_no_vars_in_actions(actions: Seq<ActionView>, send_events: bool)
    ensures
        said_by_actions(actions, var_mark(send_events)) == Seq::<Seq<char>>::empty(),
    decreases actions.len(),
{
    lemma_marks();
    if actions.len() > 0 {
        lemma_no_vars_in_actions(actions.drop_last(), send_events);
        assert(said_by_actions(actions, var_mark(send_events)) =~= Seq::empty());
    }
}

proof fn lemma_connection_manager_tables(name: Seq<char>)
    ensures
        declares(connection_manager_actions(), name) == (connection_manager_spec(name) is Ok),
        related(connection_manager_actions(), connection_manager_vars()),
        evented(connection_manager_vars(), name) == (name == "SourceProtocolInfo"@ || name
            == "SinkProtocolInfo"@ || name == "CurrentConnectionIDs"@),
{
    let t = connection_manager_actions();
    let v = connection_manager_vars();
    assert(t[0].name == "GetProtocolInfo"@);
    assert(t[1].name == "GetCurrentConnectionIDs"@);
    assert(t[2].name == "GetCurrentConnectionInfo"@);
    assert(v[0].name == "SourceProtocolInfo"@);
    assert(v[1].name == "SinkProtocolInfo"@);
    assert(v[2].name == "CurrentConnectionIDs"@);
    assert(v[3].name == "A_ARG_TYPE_ConnectionID"@);
    assert(v[4].name == "A_ARG_TYPE_RcsID"@);
    assert(v[5].name == "A_ARG_TYPE_AVTransportID"@);
    assert(v[6].name == "A_ARG_TYPE_ProtocolInfo"@);
    assert(v[7].name == "A_ARG_TYPE_ConnectionManager"@);
    assert(v[8].name == "A_ARG_TYPE_Direction"@);
    assert(v[9].name == "A_ARG_TYPE_ConnectionStatus"@);
}

/// The actions of the AVTransport service are those that it answers.
proof fn lemma_av_transport_answers(
    s: SessionView,
    st: PlaybackState,
    action: Seq<char>,
    body: Seq<char>,
)
    ensures
        ({
            let (after, r) = av_transport_spec(s, st, action, body);
            &&& (r is Err && r->Err_0.number() == 401) == !declares(av_transport_actions(), action)
            &&& !declares(av_transport_actions(), action) ==> after == s
        }),
{
    let t = av_transport_actions();
    assert(t[0].name == "SetAVTransportURI"@);
    assert(t[1].name == "SetNextAVTransportURI"@);
    assert(t[2].name == "GetMediaInfo"@);
    assert(t[3].name == "GetTransportInfo"@);
    assert(t[4].name == "GetPositionInfo"@);
    assert(t[5].name == "GetDeviceCapabilities"@);
    assert(t[6].name == "GetTransportSettings"@);
    assert(t[7].name == "Stop"@);
    assert(t[8].name == "Play"@);
    assert(t[9].name == "Pause"@);
    assert(t[10].name == "Seek"@);
    assert(t[11].name == "Next"@);
    assert(t[12].name == "Previous"@);
}

/// The actions of the RenderingControl service are those that it answers.
proof fn lemma_rendering_control_answers(
    s: SessionView,
    st: PlaybackState,
    action: Seq<char>,
    body: Seq<char>,
)
    ensures
        ({
            let (after, r) = rendering_control_spec(s, st, action, body);
            &&& (r is Err && r->Err_0.number() == 401) == !declares(
                rendering_control_actions(),
                action,
            )
            &&& !declares(rendering_control_actions(), action) ==> after == s
        }),
{
    let t = rendering_control_actions();
    assert(t[0].name == "GetVolume"@);
    assert(t[1].name == "SetVolume"@);
    assert(t[2].name == "GetMute"@);
    assert(t[3].name == "SetMute"@);
}

} // verus!
