use vstd::prelude::*;

use crate::lir::{classifiable, lir_tokens_of, LirTokenStream};
use crate::text::{decimal, push_char, push_decimal, push_signed_decimal, signed_decimal};

verus! {

/// A token of the mid-level stream: a number or a piece of text, plain or
/// wrapped in a pair of delimiters.
#[derive(Debug, Clone, PartialEq, Eq)]
pub enum MirToken {
    Uint(u32),
    Sint(i32),
    String(String),
    QuoteString(String),
    ParenString(String),
    BraceString(String),
    BracketString(String),
}

/// The value of a [`MirToken`], with its text as a sequence of characters.
pub enum MirTokenView {
    Uint(u32),
    Sint(i32),
    Str(Seq<char>),
    Quote(Seq<char>),
    Paren(Seq<char>),
    Brace(Seq<char>),
    Bracket(Seq<char>),
}

impl View for MirToken {
    type V = MirTokenView;

    open spec fn view(&self) -> MirTokenView {
        match self {
            MirToken::Uint(u) => MirTokenView::Uint(*u),
            MirToken::Sint(v) => MirTokenView::Sint(*v),
            MirToken::String(s) => MirTokenView::Str(s@),
            MirToken::QuoteString(s) => MirTokenView::Quote(s@),
            MirToken::ParenString(s) => MirTokenView::Paren(s@),
            MirToken::BraceString(s) => MirTokenView::Brace(s@),
            MirToken::BracketString(s) => MirTokenView::Bracket(s@),
        }
    }
}

/// `s` wrapped in the characters `open` and `close`.
pub open spec fn wrapped(open: char, s: Seq<char>, close: char) -> Seq<char> {
    seq![open] + s + seq![close]
}

impl MirTokenView {
    /// The text form of the token.
    pub open spec fn surface(self) -> Seq<char> {
        match self {
            MirTokenView::Uint(u) => decimal(u as nat),
            MirTokenView::Sint(v) => signed_decimal(v as int),
            MirTokenView::Str(s) => s,
            MirTokenView::Quote(s) => wrapped('"', s, '"'),
            MirTokenView::Paren(s) => wrapped('(', s, ')'),
            MirTokenView::Brace(s) => wrapped('{', s, '}'),
            MirTokenView::Bracket(s) => wrapped('[', s, ']'),
        }
    }
}

/// The text of a token sequence: the text forms of its tokens, one after another.
pub open spec fn stream_surface(v: Seq<MirTokenView>) -> Seq<char>
    decreases v.len(),
{
    if v.len() == 0 {
        Seq::empty()
    } else {
        stream_surface(v.drop_last()) + v.last().surface()
    }
}

/// The values of a sequence of tokens.
pub open spec fn views_of(v: Seq<MirToken>) -> Seq<MirTokenView> {
    v.map_values(|t: MirToken| t@)
}

/// `out` followed by a plain string of `text`, where `text` is not empty.
pub open spec fn flush(out: Seq<MirTokenView>, text: Seq<char>) -> Seq<MirTokenView> {
    if text.len() > 0 {
        out.push(MirTokenView::Str(text))
    } else {
        out
    }
}

/// Appends the characters of `t` to `buf`.
fn push_text(buf: &mut String, t: &String)
    ensures
        final(buf)@ == old(buf)@ + t@,
{
    buf.append(t.as_str());
}

/// Appends `t` wrapped in `open` and `close` to `buf`.
fn push_wrapped(buf: &mut String, open: char, t: &String, close: char)
    ensures
        final(buf)@ == old(buf)@ + wrapped(open, t@, close),
{
    let ghost start = buf@;
    push_char(buf, open);
    push_text(buf, t);
    push_char(buf, close);
    assert(buf@ =~= start + wrapped(open, t@, close));
}

impl MirToken {
    /// Appends the text form of this token to `buf`.
    pub fn push_surface(&self, buf: &mut String)
        ensures
            final(buf)@ == old(buf)@ + self@.surface(),
    {
        match self {
            MirToken::Uint(u) => push_decimal(buf, *u),
            MirToken::Sint(v) => push_signed_decimal(buf, *v),
            MirToken::String(s) => push_text(buf, s),
            MirToken::QuoteString(s) => push_wrapped(buf, '"', s, '"'),
            MirToken::ParenString(s) => push_wrapped(buf, '(', s, ')'),
            MirToken::BraceString(s) => push_wrapped(buf, '{', s, '}'),
            MirToken::BracketString(s) => push_wrapped(buf, '[', s, ']'),
        }
    }

    /// The text form of this token: an integer in decimal, a plain string as it
    /// is, a delimited string inside its delimiters.
    pub fn to_string(&self) -> (r: String)
        ensures
            r@ == self@.surface(),
    {
        let mut buf = String::new();
        self.push_surface(&mut buf);
        buf
    }

    /// The low-level tokens of this token's text form, or the first character of
    /// that text which has no classification, with its position.
    pub fn try_lower(&self) -> (r: Result<LirTokenStream, (usize, char)>)
        ensures
            r is Ok <==> classifiable(self@.surface()),
            r is Ok ==> r->Ok_0.tokens@ == lir_tokens_of(self@.surface()),
            r is Err ==> crate::lir::first_unclassified(self@.surface(), r->Err_0.0 as int)
                && r->Err_0.1 == self@.surface()[r->Err_0.0 as int],
    {
        let text = self.to_string();
        LirTokenStream::try_new(text.as_str())
    }

    /// The low-level tokens of this token's text form.
    pub fn lower(&self) -> (r: LirTokenStream)
        requires
            classifiable(self@.surface()),
        ensures
            r.tokens@ == lir_tokens_of(self@.surface()),
    {
        self.try_lower().unwrap()
    }

    /// A copy of this token.
    pub fn duplicate(&self) -> (r: MirToken)
        ensures
            r@ == self@,
    {
        match self {
            MirToken::Uint(u) => MirToken::Uint(*u),
            MirToken::Sint(v) => MirToken::Sint(*v),
            MirToken::String(s) => MirToken::String(s.clone()),
            MirToken::QuoteString(s) => MirToken::QuoteString(s.clone()),
            MirToken::ParenString(s) => MirToken::ParenString(s.clone()),
            MirToken::BraceString(s) => MirToken::BraceString(s.clone()),
            MirToken::BracketString(s) => MirToken::BracketString(s.clone()),
        }
    }

    pub fn str(s: &str) -> (r: Self)
        ensures
            r@ == MirTokenView::Str(s@),
    {
        MirToken::String(String::from_str(s))
    }

    pub fn quote(s: &str) -> (r: Self)
        ensures
            r@ == MirTokenView::Quote(s@),
    {
        MirToken::QuoteString(String::from_str(s))
    }

    pub fn paren(s: &str) -> (r: Self)
        ensures
            r@ == MirTokenView::Paren(s@),
    {
        MirToken::ParenString(String::from_str(s))
    }

    pub fn brace(s: &str) -> (r: Self)
        ensures
            r@ == MirTokenView::Brace(s@),
    {
        MirToken::BraceString(String::from_str(s))
    }

    pub fn bracket(s: &str) -> (r: Self)
        ensures
            r@ == MirTokenView::Bracket(s@),
    {
        MirToken::BracketString(String::from_str(s))
    }
}

/// A sequence of mid-level tokens.
#[derive(Debug, Clone, PartialEq, Eq)]
pub struct MirTokenStream {
    pub tokens: Vec<MirToken>,
}

impl View for MirTokenStream {
    type V = Seq<MirTokenView>;

    open spec fn view(&self) -> Seq<MirTokenView> {
        views_of(self.tokens@)
    }
}

impl MirTokenStream {
    pub fn new(tokens: Vec<MirToken>) -> (r: Self)
        ensures
            r.tokens == tokens,
    {
        MirTokenStream { tokens }
    }

    /// The text of the stream: the text forms of its tokens, in order.
    pub fn to_string(&self) -> (r: String)
        ensures
            r@ == stream_surface(self@),
    {
        let mut buf = String::new();
        let mut i: usize = 0;
        while i < self.tokens.len()
            invariant
                i <= self.tokens@.len(),
                buf@ == stream_surface(views_of(self.tokens@.subrange(0, i as int))),
            decreases self.tokens@.len() - i,
        {
            self.tokens[i].push_surface(&mut buf);
            assert(views_of(self.tokens@.subrange(0, i + 1)).drop_last() =~= views_of(
                self.tokens@.subrange(0, i as int),
            ));
            i = i + 1;
        }
        assert(self.tokens@.subrange(0, i as int) =~= self.tokens@);
        buf
    }
}

} // verus!
