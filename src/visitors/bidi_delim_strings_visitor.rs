use vstd::prelude::*;

use crate::errors::{ParseError, ParseErrorKind};
use crate::lir::{LirToken, LirTokenStream};
use crate::mir::{flush, views_of, MirToken, MirTokenStream, MirTokenView};
use crate::text::push_char;
use crate::visitors::LirRaiseVisitor;

verus! {

/// The state of the grouping scan between two tokens.
pub struct GroupState {
    /// The open delimiters not yet closed, innermost last.
    pub stack: Seq<LirToken>,
    /// Whether text goes to the delimited buffer.
    pub open: bool,
    /// The tokens emitted so far.
    pub out: Seq<MirTokenView>,
    /// Text read inside the current group.
    pub inner: Seq<char>,
    /// Text read outside any group.
    pub outer: Seq<char>,
}

/// Where the grouping scan stands after a prefix of its input.
pub enum GroupRun {
    Running(GroupState),
    /// A close delimiter matched nothing: the stream so far, the delimiter and its position.
    Unbalanced(Seq<MirTokenView>, LirToken, nat),
}

pub open spec fn group_start() -> GroupState {
    GroupState { stack: Seq::empty(), open: false, out: Seq::empty(), inner: Seq::empty(), outer: Seq::empty() }
}

/// The grouped token that a close delimiter makes of the text inside it.
pub open spec fn group_token(close: LirToken, content: Seq<char>) -> MirTokenView {
    match close {
        LirToken::CloseParen => MirTokenView::Paren(content),
        LirToken::CloseBrace => MirTokenView::Brace(content),
        _ => MirTokenView::Bracket(content),
    }
}

/// One token of the scan; `None` where a close delimiter does not match the
/// innermost open one.
pub open spec fn group_step(st: GroupState, t: LirToken) -> Option<GroupState> {
    if t.is_open_spec() {
        Some(GroupState { stack: st.stack.push(t), open: true, out: st.out.push(MirTokenView::Str(st.outer)), outer: Seq::empty(), ..st })
    } else if t.is_close_spec() {
        if st.stack.len() > 0 && st.stack.last().matches_spec(t) {
            Some(GroupState { stack: st.stack.drop_last(), open: false, out: st.out.push(group_token(t, st.inner)), inner: Seq::empty(), ..st })
        } else {
            None
        }
    } else if st.open {
        Some(GroupState { inner: st.inner.push(t.char_of()), ..st })
    } else {
        Some(GroupState { outer: st.outer.push(t.char_of()), ..st })
    }
}

/// The scan over `ts`, token by token.
pub open spec fn group_run(ts: Seq<LirToken>) -> GroupRun
    decreases ts.len(),
{
    if ts.len() == 0 {
        GroupRun::Running(group_start())
    } else {
        match group_run(ts.drop_last()) {
            GroupRun::Running(st) => match group_step(st, ts.last()) {
                Some(next) => GroupRun::Running(next),
                None => GroupRun::Unbalanced(st.out, ts.last(), (ts.len() - 1) as nat),
            },
            stuck => stuck,
        }
    }
}

/// The result of grouping `ts`: the grouped stream, or the stream so far, the
/// unbalanced delimiter and its position (the length of the input where a group
/// is left open).
pub open spec fn group_outcome(ts: Seq<LirToken>) -> Result<
    Seq<MirTokenView>,
    (Seq<MirTokenView>, LirToken, nat),
> {
    match group_run(ts) {
        GroupRun::Unbalanced(so_far, t, i) => Err((so_far, t, i)),
        GroupRun::Running(st) => if st.stack.len() == 0 {
            Ok(flush(st.out, st.outer))
        } else {
            Err((flush(flush(st.out, st.outer), st.inner), st.stack.last(), ts.len()))
        },
    }
}

/// Once the scan has met an unbalanced delimiter, the rest of the input changes nothing.
pub(crate) proof fn lemma_unbalanced_stays(ts: Seq<LirToken>, k: int)
    requires
        0 <= k <= ts.len(),
        group_run(ts.subrange(0, k)) is Unbalanced,
    ensures
        group_run(ts) == group_run(ts.subrange(0, k)),
    decreases ts.len() - k,
{
    if k == ts.len() {
        assert(ts.subrange(0, k) =~= ts);
    } else {
        assert(ts.subrange(0, k + 1).drop_last() =~= ts.subrange(0, k));
        lemma_unbalanced_stays(ts, k + 1);
    }
}

/// The pass that groups text between a pair of parentheses, braces or brackets
/// into one token.
#[derive(Debug, Clone)]
pub struct BidiDelimStringsVisitor;

/// Moves the text of `buf` into a new plain-string token at the end of `mir`.
fn flush_buffer(mir: &mut Vec<MirToken>, buf: String)
    ensures
        views_of(final(mir)@) == flush(views_of(old(mir)@), buf@),
{
    if buf.as_str().unicode_len() > 0 {
        mir.push(MirToken::String(buf));
        assert(views_of(mir@) =~= views_of(old(mir)@).push(MirTokenView::Str(buf@)));
    }
}

impl BidiDelimStringsVisitor {
    /// Groups the tokens of `ts`.
    pub fn group(&self, ts: &[LirToken]) -> (r: Result<MirTokenStream, ParseError>)
        ensures
            match group_outcome(ts@) {
                Ok(v) => r is Ok && r->Ok_0@ == v,
                Err((so_far, t, i)) => r is Err && r->Err_0.is_unbalanced(so_far, t, i),
            },
    {
        let mut is_open = false;
        let mut mir: Vec<MirToken> = Vec::new();
        let mut delims: Vec<LirToken> = Vec::new();
        let mut delim_buffer = String::new();
        let mut other_buffer = String::new();
        let mut idx: usize = 0;
        assert(ts@.subrange(0, 0) =~= Seq::<LirToken>::empty());
        assert(views_of(mir@) =~= Seq::<MirTokenView>::empty());
        assert(delims@ =~= Seq::<LirToken>::empty());
        while idx < ts.len()
            invariant
                idx <= ts@.len(),
                group_run(ts@.subrange(0, idx as int)) == GroupRun::Running(
                    GroupState {
                        stack: delims@,
                        open: is_open,
                        out: views_of(mir@),
                        inner: delim_buffer@,
                        outer: other_buffer@,
                    },
                ),
            decreases ts@.len() - idx,
        {
            let token = ts[idx];
            let ghost before = GroupState {
                stack: delims@,
                open: is_open,
                out: views_of(mir@),
                inner: delim_buffer@,
                outer: other_buffer@,
            };
            assert(ts@.subrange(0, idx + 1).drop_last() =~= ts@.subrange(0, idx as int));
            if token.is_open_delim() {
                delims.push(token);
                is_open = true;
                let outer = other_buffer.clone();
                other_buffer = String::new();
                mir.push(MirToken::String(outer));
                assert(views_of(mir@) =~= before.out.push(MirTokenView::Str(before.outer)));
            } else if token.is_close_delim() {
                let matched = delims.len() > 0 && delims[delims.len() - 1].is_matching_delims(
                    &token,
                );
                if !matched {
                    proof {
                        lemma_unbalanced_stays(ts@, idx + 1);
                    }
                    let so_far = MirTokenStream::new(mir);
                    return Err(
                        ParseError::new(ParseErrorKind::UnbalancedDelim(so_far, token), idx),
                    );
                }
                delims.pop();
                let inner = delim_buffer.clone();
                delim_buffer = String::new();
                let grouped = match token {
                    LirToken::CloseParen => MirToken::ParenString(inner),
                    LirToken::CloseBrace => MirToken::BraceString(inner),
                    _ => MirToken::BracketString(inner),
                };
                mir.push(grouped);
                assert(delims@ =~= before.stack.drop_last());
                assert(views_of(mir@) =~= before.out.push(group_token(token, before.inner)));
                is_open = false;
            } else if is_open {
                push_char(&mut delim_buffer, token.as_char());
            } else {
                push_char(&mut other_buffer, token.as_char());
            }
            idx = idx + 1;
        }
        assert(ts@.subrange(0, idx as int) =~= ts@);
        flush_buffer(&mut mir, other_buffer);
        if delims.len() > 0 {
            let open_delim = delims[delims.len() - 1];
            flush_buffer(&mut mir, delim_buffer);
            return Err(
                ParseError::new(
                    ParseErrorKind::UnbalancedDelim(MirTokenStream::new(mir), open_delim),
                    ts.len(),
                ),
            );
        }
        Ok(MirTokenStream::new(mir))
    }
}

impl LirRaiseVisitor for BidiDelimStringsVisitor {
    fn visit(&self, stream: LirTokenStream) -> (r: Result<MirTokenStream, ParseError>)
        ensures
            match group_outcome(stream@) {
                Ok(v) => r is Ok && r->Ok_0@ == v,
                Err((so_far, t, i)) => r is Err && r->Err_0.is_unbalanced(so_far, t, i),
            },
    {
        self.group(stream.as_slice())
    }
}

} // verus!
