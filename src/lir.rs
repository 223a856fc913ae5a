use vstd::prelude::*;

verus! {

/// Whether `c` carries Unicode's `White_Space` property.
pub uninterp spec fn unicode_whitespace(c: char) -> bool;

/// Whether `c` carries Unicode's `Alphabetic` property.
pub uninterp spec fn unicode_alphabetic(c: char) -> bool;

/// Whether `c` belongs to one of Unicode's numeric general categories.
pub uninterp spec fn unicode_numeric(c: char) -> bool;

/// Relies on `char::is_whitespace`: true exactly for the characters with Unicode's
/// `White_Space` property.
#[verifier::external_body]
fn char_is_whitespace(c: char) -> (r: bool)
    ensures
        r == unicode_whitespace(c),
{
    c.is_whitespace()
}

/// Relies on `char::is_alphabetic`: true exactly for the characters with Unicode's
/// `Alphabetic` property.
#[verifier::external_body]
fn char_is_alphabetic(c: char) -> (r: bool)
    ensures
        r == unicode_alphabetic(c),
{
    c.is_alphabetic()
}

/// Relies on `char::is_numeric`: true exactly for the characters in the general
/// categories `Nd`, `Nl` and `No`.
#[verifier::external_body]
fn char_is_numeric(c: char) -> (r: bool)
    ensures
        r == unicode_numeric(c),
{
    c.is_numeric()
}

/// A single classified character of the input text.
#[derive(Debug, Clone, Copy, PartialEq, Eq, Structural)]
pub enum LirToken {
    Comma,
    Colon,
    Semicolon,
    Apostrophe,
    Question,
    Exclamation,
    Period,
    Quote,
    OpenParen,
    OpenBrace,
    OpenBracket,
    CloseParen,
    CloseBrace,
    CloseBracket,
    Slash,
    Hyphen,
    Wsp(char),
    Alpha(char),
    Digit(char),
}

/// The token of one of the fixed punctuation and delimiter characters.
pub open spec fn punct_of(c: char) -> Option<LirToken> {
    if c == ',' {
        Some(LirToken::Comma)
    } else if c == ':' {
        Some(LirToken::Colon)
    } else if c == ';' {
        Some(LirToken::Semicolon)
    } else if c == '\'' {
        Some(LirToken::Apostrophe)
    } else if c == '?' {
        Some(LirToken::Question)
    } else if c == '!' {
        Some(LirToken::Exclamation)
    } else if c == '.' {
        Some(LirToken::Period)
    } else if c == '"' {
        Some(LirToken::Quote)
    } else if c == '(' {
        Some(LirToken::OpenParen)
    } else if c == '{' {
        Some(LirToken::OpenBrace)
    } else if c == '[' {
        Some(LirToken::OpenBracket)
    } else if c == ')' {
        Some(LirToken::CloseParen)
    } else if c == '}' {
        Some(LirToken::CloseBrace)
    } else if c == ']' {
        Some(LirToken::CloseBracket)
    } else if c == '/' {
        Some(LirToken::Slash)
    } else if c == '-' {
        Some(LirToken::Hyphen)
    } else {
        None
    }
}

/// Classification of `c` given its three Unicode properties: the fixed punctuation
/// first, then whitespace, then alphabetic, then numeric.
pub open spec fn classify_spec(c: char, wsp: bool, alpha: bool, numeric: bool) -> Option<LirToken> {
    if punct_of(c) is Some {
        punct_of(c)
    } else if wsp {
        Some(LirToken::Wsp(c))
    } else if alpha {
        Some(LirToken::Alpha(c))
    } else if numeric {
        Some(LirToken::Digit(c))
    } else {
        None
    }
}

/// The token that `c` is classified as, if any.
pub open spec fn lir_of(c: char) -> Option<LirToken> {
    classify_spec(c, unicode_whitespace(c), unicode_alphabetic(c), unicode_numeric(c))
}

/// Every character of `s` has a classification.
pub open spec fn classifiable(s: Seq<char>) -> bool {
    forall|i: int| 0 <= i < s.len() ==> (#[trigger] lir_of(s[i])) is Some
}

/// The tokens of a classifiable text, one per character.
pub open spec fn lir_tokens_of(s: Seq<char>) -> Seq<LirToken> {
    s.map_values(|c: char| lir_of(c)->0)
}

/// `i` is the first position of `s` whose character has no classification.
pub open spec fn first_unclassified(s: Seq<char>, i: int) -> bool {
    &&& 0 <= i < s.len()
    &&& lir_of(s[i]) is None
    &&& forall|j: int| 0 <= j < i ==> (#[trigger] lir_of(s[j])) is Some
}

/// The text of a token sequence, one character per token.
pub open spec fn render_lir(ts: Seq<LirToken>) -> Seq<char> {
    ts.map_values(|t: LirToken| t.char_of())
}

impl LirToken {
    /// The character that this token stands for.
    pub open spec fn char_of(self) -> char {
        match self {
            LirToken::Comma => ',',
            LirToken::Colon => ':',
            LirToken::Semicolon => ';',
            LirToken::Apostrophe => '\'',
            LirToken::Question => '?',
            LirToken::Exclamation => '!',
            LirToken::Period => '.',
            LirToken::Quote => '"',
            LirToken::OpenParen => '(',
            LirToken::OpenBrace => '{',
            LirToken::OpenBracket => '[',
            LirToken::CloseParen => ')',
            LirToken::CloseBrace => '}',
            LirToken::CloseBracket => ']',
            LirToken::Slash => '/',
            LirToken::Hyphen => '-',
            LirToken::Wsp(c) => c,
            LirToken::Alpha(c) => c,
            LirToken::Digit(c) => c,
        }
    }

    pub open spec fn is_open_spec(self) -> bool {
        self is OpenParen || self is OpenBrace || self is OpenBracket
    }

    pub open spec fn is_close_spec(self) -> bool {
        self is CloseParen || self is CloseBrace || self is CloseBracket
    }

    pub open spec fn matches_spec(self, closing: LirToken) -> bool {
        ||| (self is Quote && closing is Quote)
        ||| (self is OpenParen && closing is CloseParen)
        ||| (self is OpenBrace && closing is CloseBrace)
        ||| (self is OpenBracket && closing is CloseBracket)
    }

    /// Classifies `c` from its three Unicode properties, which the caller supplies.
    pub fn classify(c: char, wsp: bool, alpha: bool, numeric: bool) -> (r: Option<LirToken>)
        ensures
            r == classify_spec(c, wsp, alpha, numeric),
    {
        match c {
            ',' => Some(LirToken::Comma),
            ':' => Some(LirToken::Colon),
            ';' => Some(LirToken::Semicolon),
            '\'' => Some(LirToken::Apostrophe),
            '?' => Some(LirToken::Question),
            '!' => Some(LirToken::Exclamation),
            '.' => Some(LirToken::Period),
            '"' => Some(LirToken::Quote),
            '(' => Some(LirToken::OpenParen),
            '{' => Some(LirToken::OpenBrace),
            '[' => Some(LirToken::OpenBracket),
            ')' => Some(LirToken::CloseParen),
            '}' => Some(LirToken::CloseBrace),
            ']' => Some(LirToken::CloseBracket),
            '/' => Some(LirToken::Slash),
            '-' => Some(LirToken::Hyphen),
            _ => {
                if wsp {
                    Some(LirToken::Wsp(c))
                } else if alpha {
                    Some(LirToken::Alpha(c))
                } else if numeric {
                    Some(LirToken::Digit(c))
                } else {
                    None
                }
            },
        }
    }

    /// Classifies one character, or `None` where it has no category.
    pub fn try_new(c: char) -> (r: Option<LirToken>)
        ensures
            r == lir_of(c),
    {
        LirToken::classify(c, char_is_whitespace(c), char_is_alphabetic(c), char_is_numeric(c))
    }

    pub fn as_char(&self) -> (r: char)
        ensures
            r == self.char_of(),
    {
        match self {
            LirToken::Comma => ',',
            LirToken::Colon => ':',
            LirToken::Semicolon => ';',
            LirToken::Apostrophe => '\'',
            LirToken::Question => '?',
            LirToken::Exclamation => '!',
            LirToken::Period => '.',
            LirToken::Quote => '"',
            LirToken::OpenParen => '(',
            LirToken::OpenBrace => '{',
            LirToken::OpenBracket => '[',
            LirToken::CloseParen => ')',
            LirToken::CloseBrace => '}',
            LirToken::CloseBracket => ']',
            LirToken::Slash => '/',
            LirToken::Hyphen => '-',
            LirToken::Wsp(c) => *c,
            LirToken::Alpha(c) => *c,
            LirToken::Digit(c) => *c,
        }
    }

    pub fn is_term_punct(&self) -> (r: bool)
        ensures
            r == (*self is Question || *self is Exclamation || *self is Period),
    {
        matches!(self, LirToken::Question | LirToken::Exclamation | LirToken::Period)
    }

    pub fn is_nonterm_punct(&self) -> (r: bool)
        ensures
            r == (*self is Comma || *self is Colon || *self is Semicolon || *self is Apostrophe
                || *self is Hyphen),
    {
        matches!(
            self,
            LirToken::Comma | LirToken::Colon | LirToken::Semicolon | LirToken::Apostrophe
                | LirToken::Hyphen
        )
    }

    pub fn is_open_delim(&self) -> (r: bool)
        ensures
            r == self.is_open_spec(),
    {
        matches!(self, LirToken::OpenParen | LirToken::OpenBrace | LirToken::OpenBracket)
    }

    pub fn is_close_delim(&self) -> (r: bool)
        ensures
            r == self.is_close_spec(),
    {
        matches!(self, LirToken::CloseParen | LirToken::CloseBrace | LirToken::CloseBracket)
    }

    /// Whether `self` opens a group that `closing` closes.
    pub fn is_matching_delims(&self, closing: &LirToken) -> (r: bool)
        ensures
            r == self.matches_spec(*closing),
    {
        match (self, closing) {
            (LirToken::Quote, LirToken::Quote) => true,
            (LirToken::OpenParen, LirToken::CloseParen) => true,
            (LirToken::OpenBrace, LirToken::CloseBrace) => true,
            (LirToken::OpenBracket, LirToken::CloseBracket) => true,
            _ => false,
        }
    }
}

/// A classified token keeps the character it was made from.
pub proof fn lemma_classify_keeps_char(c: char, wsp: bool, alpha: bool, numeric: bool)
    requires
        classify_spec(c, wsp, alpha, numeric) is Some,
    ensures
        classify_spec(c, wsp, alpha, numeric)->0.char_of() == c,
{
}

impl From<LirToken> for char {
    fn from(t: LirToken) -> (r: char) {
        t.as_char()
    }
}

impl vstd::std_specs::convert::FromSpecImpl<LirToken> for char {
    open spec fn obeys_from_spec() -> bool {
        true
    }

    open spec fn from_spec(t: LirToken) -> char {
        t.char_of()
    }
}

impl TryFrom<char> for LirToken {
    type Error = ();

    fn try_from(c: char) -> (r: Result<LirToken, ()>)
        ensures
            r == match lir_of(c) {
                Some(t) => Ok::<LirToken, ()>(t),
                None => Err(()),
            },
    {
        match LirToken::try_new(c) {
            Some(t) => Ok(t),
            None => Err(()),
        }
    }
}

impl vstd::std_specs::convert::TryFromSpecImpl<char> for LirToken {
    open spec fn obeys_try_from_spec() -> bool {
        true
    }

    open spec fn try_from_spec(c: char) -> Result<LirToken, ()> {
        match lir_of(c) {
            Some(t) => Ok(t),
            None => Err(()),
        }
    }
}

/// The tokens of one text, in the order of its characters.
#[derive(Debug, Clone, PartialEq, Eq)]
pub struct LirTokenStream {
    pub tokens: Vec<LirToken>,
}

impl View for LirTokenStream {
    type V = Seq<LirToken>;

    open spec fn view(&self) -> Seq<LirToken> {
        self.tokens@
    }
}

impl LirTokenStream {
    pub fn new(tokens: Vec<LirToken>) -> (r: Self)
        ensures
            r.tokens == tokens,
    {
        LirTokenStream { tokens }
    }

    /// Classifies every character of `s`, or reports the first one that has no
    /// category, with its position among the characters.
    pub fn try_new(s: &str) -> (r: Result<Self, (usize, char)>)
        ensures
            r is Ok <==> classifiable(s@),
            r is Ok ==> r->Ok_0.tokens@ == lir_tokens_of(s@),
            r is Err ==> first_unclassified(s@, r->Err_0.0 as int) && r->Err_0.1 == s@[r->Err_0.0 as int],
    {
        let n = s.unicode_len();
        let mut tokens: Vec<LirToken> = Vec::new();
        let mut i: usize = 0;
        while i < n
            invariant
                n == s@.len(),
                i <= n,
                tokens@.len() == i,
                forall|j: int| 0 <= j < i ==> lir_of(s@[j]) == Some(#[trigger] tokens@[j]),
                forall|j: int| 0 <= j < i ==> (#[trigger] lir_of(s@[j])) is Some,
            decreases n - i,
        {
            let c = s.get_char(i);
            match LirToken::try_new(c) {
                Some(t) => tokens.push(t),
                None => {
                    return Err((i, c));
                },
            }
            i = i + 1;
        }
        assert(tokens@ =~= lir_tokens_of(s@));
        Ok(LirTokenStream::new(tokens))
    }

    pub fn as_slice(&self) -> (r: &[LirToken])
        ensures
            r@ == self.tokens@,
    {
        self.tokens.as_slice()
    }

    /// The text of the stream: each token's character, in order.
    pub fn to_string(&self) -> (r: String)
        ensures
            r@ == render_lir(self.tokens@),
    {
        let mut buffer = String::new();
        let mut i: usize = 0;
        while i < self.tokens.len()
            invariant
                i <= self.tokens@.len(),
                buffer@ == render_lir(self.tokens@.subrange(0, i as int)),
            decreases self.tokens@.len() - i,
        {
            crate::text::push_char(&mut buffer, self.tokens[i].as_char());
            assert(self.tokens@.subrange(0, i + 1) =~= self.tokens@.subrange(0, i as int).push(
                self.tokens@[i as int],
            ));
            assert(render_lir(self.tokens@.subrange(0, i + 1)) =~= render_lir(
                self.tokens@.subrange(0, i as int),
            ).push(self.tokens@[i as int].char_of()));
            i = i + 1;
        }
        assert(self.tokens@.subrange(0, i as int) =~= self.tokens@);
        buffer
    }
}

impl From<Vec<LirToken>> for LirTokenStream {
    fn from(v: Vec<LirToken>) -> (r: Self) {
        LirTokenStream { tokens: v }
    }
}

impl vstd::std_specs::convert::FromSpecImpl<Vec<LirToken>> for LirTokenStream {
    open spec fn obeys_from_spec() -> bool {
        true
    }

    open spec fn from_spec(v: Vec<LirToken>) -> LirTokenStream {
        LirTokenStream { tokens: v }
    }
}

/// Rendering the tokens of a classifiable text gives the text back.
pub proof fn lemma_render_round_trip(s: Seq<char>)
    requires
        classifiable(s),
    ensures
        render_lir(lir_tokens_of(s)) == s,
{
    assert forall|i: int| 0 <= i < s.len() implies #[trigger] render_lir(lir_tokens_of(s))[i]
        == s[i] by {
        assert(lir_of(s[i]) is Some);
        lemma_classify_keeps_char(
            s[i],
            unicode_whitespace(s[i]),
            unicode_alphabetic(s[i]),
            unicode_numeric(s[i]),
        );
    }
    assert(render_lir(lir_tokens_of(s)) =~= s);
}

} // verus!
