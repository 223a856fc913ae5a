use vstd::prelude::*;

use crate::lir::{
    classifiable, lemma_classify_keeps_char, lir_of, lir_tokens_of, render_lir, unicode_alphabetic,
    unicode_numeric, unicode_whitespace, LirToken,
};
use crate::mir::{flush, MirTokenView};
use crate::visitors::bidi_delim_strings_visitor::{
    group_outcome, group_run, group_token, lemma_unbalanced_stays, GroupRun, GroupState,
};

verus! {

/// No token of `ts` opens or closes a group.
pub open spec fn plain(ts: Seq<LirToken>) -> bool {
    forall|i: int| 0 <= i < ts.len() ==> !(#[trigger] ts[i]).is_open_spec() && !ts[i].is_close_spec()
}

/// The close delimiter that matches an open one.
pub open spec fn closer_of(open: LirToken) -> LirToken {
    match open {
        LirToken::OpenParen => LirToken::CloseParen,
        LirToken::OpenBrace => LirToken::CloseBrace,
        _ => LirToken::CloseBracket,
    }
}

/// Plain text followed by one delimited group.
pub struct Segment {
    pub lead: Seq<LirToken>,
    pub open: LirToken,
    pub body: Seq<LirToken>,
}

/// A segment is well formed: its open token opens a group, and neither its text
/// nor the group's content holds a delimiter.
pub open spec fn segment_ok(g: Segment) -> bool {
    g.open.is_open_spec() && plain(g.lead) && plain(g.body)
}

pub open spec fn segment_tokens(g: Segment) -> Seq<LirToken> {
    g.lead + seq![g.open] + g.body + seq![closer_of(g.open)]
}

/// The tokens of a sequence of segments, one after another.
pub open spec fn segments_input(gs: Seq<Segment>) -> Seq<LirToken>
    decreases gs.len(),
{
    if gs.len() == 0 {
        Seq::empty()
    } else {
        segments_input(gs.drop_last()) + segment_tokens(gs.last())
    }
}

/// For each segment, a plain string of its text and the grouped token of its content.
pub open spec fn segments_output(gs: Seq<Segment>) -> Seq<MirTokenView>
    decreases gs.len(),
{
    if gs.len() == 0 {
        Seq::empty()
    } else {
        segments_output(gs.drop_last()).push(MirTokenView::Str(render_lir(gs.last().lead))).push(
            group_token(closer_of(gs.last().open), render_lir(gs.last().body)),
        )
    }
}

/// The scan state between groups: nothing open and no text pending.
pub open spec fn settled(out: Seq<MirTokenView>) -> GroupState {
    GroupState { stack: Seq::empty(), open: false, out, inner: Seq::empty(), outer: Seq::empty() }
}

proof fn lemma_run_one(a: Seq<LirToken>, t: LirToken)
    ensures
        group_run(a + seq![t]) == match group_run(a) {
            GroupRun::Running(st) => match crate::visitors::bidi_delim_strings_visitor::group_step(
                st,
                t,
            ) {
                Some(next) => GroupRun::Running(next),
                None => GroupRun::Unbalanced(st.out, t, a.len()),
            },
            stuck => stuck,
        },
{
    assert((a + seq![t]).drop_last() =~= a);
}

/// Plain text only adds to the buffer in use.
proof fn lemma_run_plain(a: Seq<LirToken>, b: Seq<LirToken>, st: GroupState)
    requires
        group_run(a) == GroupRun::Running(st),
        plain(b),
    ensures
        group_run(a + b) == GroupRun::Running(
            if st.open {
                GroupState { inner: st.inner + render_lir(b), ..st }
            } else {
                GroupState { outer: st.outer + render_lir(b), ..st }
            },
        ),
    decreases b.len(),
{
    if b.len() == 0 {
        assert(a + b =~= a);
        assert(st.inner + render_lir(b) =~= st.inner);
        assert(st.outer + render_lir(b) =~= st.outer);
    } else {
        let c = b.drop_last();
        assert(plain(c)) by {
            assert forall|i: int| 0 <= i < c.len() implies !(#[trigger] c[i]).is_open_spec()
                && !c[i].is_close_spec() by {
                assert(c[i] == b[i]);
            }
        }
        lemma_run_plain(a, c, st);
        assert(a + b =~= (a + c) + seq![b.last()]);
        lemma_run_one(a + c, b.last());
        assert(!b[b.len() - 1].is_open_spec() && !b[b.len() - 1].is_close_spec());
        assert(render_lir(b) =~= render_lir(c).push(b.last().char_of()));
        assert(st.inner + render_lir(b) =~= (st.inner + render_lir(c)).push(b.last().char_of()));
        assert(st.outer + render_lir(b) =~= (st.outer + render_lir(c)).push(b.last().char_of()));
    }
}

/// A well-formed segment read from a settled state emits its text and its group
/// and settles again.
proof fn lemma_run_segment(a: Seq<LirToken>, out: Seq<MirTokenView>, g: Segment)
    requires
        group_run(a) == GroupRun::Running(settled(out)),
        segment_ok(g),
    ensures
        group_run(a + segment_tokens(g)) == GroupRun::Running(
            settled(
                out.push(MirTokenView::Str(render_lir(g.lead))).push(
                    group_token(closer_of(g.open), render_lir(g.body)),
                ),
            ),
        ),
{
    let s0 = settled(out);
    lemma_run_plain(a, g.lead, s0);
    assert(Seq::<char>::empty() + render_lir(g.lead) =~= render_lir(g.lead));
    let a1 = a + g.lead;
    lemma_run_one(a1, g.open);
    let a2 = a1 + seq![g.open];
    let s2 = GroupState {
        stack: seq![g.open],
        open: true,
        out: out.push(MirTokenView::Str(render_lir(g.lead))),
        inner: Seq::empty(),
        outer: Seq::empty(),
    };
    assert(Seq::<LirToken>::empty().push(g.open) =~= seq![g.open]);
    assert(group_run(a2) == GroupRun::Running(s2));
    lemma_run_plain(a2, g.body, s2);
    assert(Seq::<char>::empty() + render_lir(g.body) =~= render_lir(g.body));
    let a3 = a2 + g.body;
    lemma_run_one(a3, closer_of(g.open));
    assert(seq![g.open].drop_last() =~= Seq::<LirToken>::empty());
    assert(a3 + seq![closer_of(g.open)] =~= a + segment_tokens(g));
}

/// Delimiter balance: input made of segments, each plain text followed by one group
/// of a single delimiter kind with plain content, then plain text, is grouped into
/// one plain string per segment text and exactly one grouped token per group, whose
/// content is the text between its delimiters; the trailing text, where there is
/// any, ends the stream.
pub proof fn lemma_balanced_groups(gs: Seq<Segment>, tail: Seq<LirToken>)
    requires
        forall|i: int| 0 <= i < gs.len() ==> segment_ok(#[trigger] gs[i]),
        plain(tail),
    ensures
        group_outcome(segments_input(gs) + tail) == Ok::<
            Seq<MirTokenView>,
            (Seq<MirTokenView>, LirToken, nat),
        >(flush(segments_output(gs), render_lir(tail))),
{
    lemma_run_segments(gs);
    lemma_run_plain(segments_input(gs), tail, settled(segments_output(gs)));
    assert(Seq::<char>::empty() + render_lir(tail) =~= render_lir(tail));
}

proof fn lemma_run_segments(gs: Seq<Segment>)
    requires
        forall|i: int| 0 <= i < gs.len() ==> segment_ok(#[trigger] gs[i]),
    ensures
        group_run(segments_input(gs)) == GroupRun::Running(settled(segments_output(gs))),
    decreases gs.len(),
{
    if gs.len() == 0 {
        assert(group_run(Seq::<LirToken>::empty()) == GroupRun::Running(settled(Seq::empty())));
    } else {
        let hs = gs.drop_last();
        assert forall|i: int| 0 <= i < hs.len() implies segment_ok(#[trigger] hs[i]) by {
            assert(hs[i] == gs[i]);
        }
        lemma_run_segments(hs);
        assert(segment_ok(gs[gs.len() - 1]));
        lemma_run_segment(segments_input(hs), segments_output(hs), gs.last());
    }
}

/// Unbalanced detection: a close delimiter met while no open one is pending, or
/// while the innermost pending one is of another kind, ends the pass with an
/// unbalanced-delimiter report that holds the stream built before it, the
/// delimiter and its position, whatever input follows.
pub proof fn lemma_unmatched_close(before: Seq<LirToken>, t: LirToken, rest: Seq<LirToken>)
    requires
        group_run(before) is Running,
        t.is_close_spec(),
        !(group_run(before)->Running_0.stack.len() > 0 && group_run(
            before,
        )->Running_0.stack.last().matches_spec(t)),
    ensures
        group_outcome(before + seq![t] + rest) == Err::<
            Seq<MirTokenView>,
            (Seq<MirTokenView>, LirToken, nat),
        >((group_run(before)->Running_0.out, t, before.len())),
{
    let all = before + seq![t] + rest;
    lemma_run_one(before, t);
    assert(all.subrange(0, before.len() + 1 as int) =~= before + seq![t]);
    lemma_unbalanced_stays(all, before.len() + 1 as int);
}

/// Text with none of the six bracket characters.
pub open spec fn bracket_free(s: Seq<char>) -> bool {
    forall|i: int|
        0 <= i < s.len() ==> #[trigger] s[i] != '(' && s[i] != ')' && s[i] != '{' && s[i] != '}'
            && s[i] != '[' && s[i] != ']'
}

proof fn lemma_bracket_free_plain(s: Seq<char>)
    requires
        classifiable(s),
        bracket_free(s),
    ensures
        plain(lir_tokens_of(s)),
        render_lir(lir_tokens_of(s)) == s,
{
    crate::lir::lemma_render_round_trip(s);
    let ts = lir_tokens_of(s);
    assert forall|i: int| 0 <= i < ts.len() implies !(#[trigger] ts[i]).is_open_spec()
        && !ts[i].is_close_spec() by {
        assert(lir_of(s[i]) is Some);
        lemma_classify_keeps_char(
            s[i],
            unicode_whitespace(s[i]),
            unicode_alphabetic(s[i]),
            unicode_numeric(s[i]),
        );
        assert(ts[i].char_of() == s[i]);
    }
}

/// Lowering then grouping: a parenthesised, braced or bracketed token whose content
/// holds no bracket character is raised back to the same token, after the empty
/// plain string that precedes every group; a plain string with no bracket
/// character is raised back to itself, or to nothing where it is empty.
pub proof fn lemma_lower_then_group(t: MirTokenView)
    requires
        t is Paren || t is Brace || t is Bracket || t is Str,
        classifiable(t.surface()),
        bracket_free(
            match t {
                MirTokenView::Paren(s) => s,
                MirTokenView::Brace(s) => s,
                MirTokenView::Bracket(s) => s,
                MirTokenView::Str(s) => s,
                _ => Seq::empty(),
            },
        ),
    ensures
        group_outcome(lir_tokens_of(t.surface())) == Ok::<
            Seq<MirTokenView>,
            (Seq<MirTokenView>, LirToken, nat),
        >(
            match t {
                MirTokenView::Str(s) => flush(Seq::empty(), s),
                _ => seq![MirTokenView::Str(Seq::empty()), t],
            },
        ),
{
    match t {
        MirTokenView::Str(s) => {
            lemma_bracket_free_plain(s);
            lemma_balanced_groups(Seq::empty(), lir_tokens_of(s));
            assert(segments_input(Seq::<Segment>::empty()) + lir_tokens_of(s) =~= lir_tokens_of(s));
        },
        _ => {
            let (open, s, close) = match t {
                MirTokenView::Paren(s) => ('(', s, ')'),
                MirTokenView::Brace(s) => ('{', s, '}'),
                _ => ('[', t->Bracket_0, ']'),
            };
            let w = seq![open] + s + seq![close];
            assert(t.surface() == w);
            assert(classifiable(s)) by {
                assert forall|i: int| 0 <= i < s.len() implies (#[trigger] lir_of(s[i])) is Some by {
                    assert(w[i + 1] == s[i]);
                }
            }
            lemma_bracket_free_plain(s);
            assert(lir_of(open) is Some) by {
                assert(w[0] == open);
            }
            let g = Segment { lead: Seq::empty(), open: lir_of(open)->0, body: lir_tokens_of(s) };
            assert(lir_tokens_of(w) =~= segment_tokens(g));
            let gs = seq![g];
            assert(gs.drop_last() =~= Seq::<Segment>::empty());
            assert(gs.last() == g);
            assert(segments_input(Seq::<Segment>::empty()) == Seq::<LirToken>::empty());
            assert(segments_output(Seq::<Segment>::empty()) == Seq::<MirTokenView>::empty());
            assert(segments_input(gs) =~= segment_tokens(g));
            assert(render_lir(g.lead) =~= Seq::<char>::empty());
            assert(group_token(closer_of(g.open), render_lir(g.body)) == t);
            lemma_balanced_groups(gs, Seq::empty());
            assert(segments_input(gs) + Seq::<LirToken>::empty() =~= lir_tokens_of(w));
            assert(render_lir(Seq::<LirToken>::empty()) =~= Seq::<char>::empty());
            assert(segments_output(gs) =~= seq![MirTokenView::Str(Seq::empty()), t]);
        },
    }
}

} // verus!
