use vstd::prelude::*;

use crate::errors::{ParseError, ParseErrorKind};
use crate::lir::{classifiable, first_unclassified, lir_tokens_of, LirToken};
use crate::mir::{flush, views_of, MirToken, MirTokenStream, MirTokenView};
use crate::text::push_char;
use crate::visitors::MirOptVisitor;

verus! {

/// The state of the number scan over the tokens of one plain string.
pub struct IntScan {
    /// The tokens emitted so far.
    pub out: Seq<MirTokenView>,
    /// Text read since the last emitted token.
    pub text: Seq<char>,
    /// The value of the digits read so far, while `in_number`.
    pub value: nat,
    /// Whether a run of digits is being read.
    pub in_number: bool,
    /// Whether the next number is negative.
    pub negative: bool,
    /// Whether the previous token was a hyphen.
    pub after_hyphen: bool,
}

/// A token for one of the ASCII digits.
pub open spec fn is_ascii_digit_token(t: LirToken) -> bool {
    t matches LirToken::Digit(c) && '0' <= c <= '9'
}

pub open spec fn digit_value(c: char) -> nat {
    (c as u32 - 48) as nat
}

/// The integer token for a run of digits of value `value`, or `None` where the
/// value does not fit.
pub open spec fn number_token(value: nat, negative: bool) -> Option<MirTokenView> {
    if negative {
        if value <= 2147483648 {
            Some(MirTokenView::Sint((-value) as i32))
        } else {
            None
        }
    } else if value <= 4294967295 {
        Some(MirTokenView::Uint(value as u32))
    } else {
        None
    }
}

/// Ends the run of digits being read, if any, emitting its token.
pub open spec fn end_number(st: IntScan) -> Option<IntScan> {
    if !st.in_number {
        Some(st)
    } else {
        match number_token(st.value, st.negative) {
            Some(n) => Some(IntScan { out: st.out.push(n), value: 0, in_number: false, negative: false, ..st }),
            None => None,
        }
    }
}

pub open spec fn int_scan_start() -> IntScan {
    IntScan { out: Seq::empty(), text: Seq::empty(), value: 0, in_number: false, negative: false, after_hyphen: false }
}

/// One token of the number scan; `None` where a number overflows.
pub open spec fn int_step(st: IntScan, t: LirToken) -> Option<IntScan> {
    if is_ascii_digit_token(t) {
        let d = digit_value(t.char_of());
        if st.in_number {
            let v = st.value * 10 + d;
            if v > 4294967295 {
                None
            } else {
                Some(IntScan { value: v, after_hyphen: false, ..st })
            }
        } else {
            Some(IntScan { out: flush(st.out, st.text), text: Seq::empty(), value: d, in_number: true, after_hyphen: false, ..st })
        }
    } else {
        match end_number(st) {
            None => None,
            Some(s) => Some(
                IntScan {
                    negative: if t is Hyphen && s.after_hyphen {
                        !s.negative
                    } else {
                        s.negative
                    },
                    text: s.text.push(t.char_of()),
                    after_hyphen: t is Hyphen,
                    ..s
                },
            ),
        }
    }
}

/// The number scan over `ts`, token by token.
pub open spec fn int_scan(ts: Seq<LirToken>) -> Option<IntScan>
    decreases ts.len(),
{
    if ts.len() == 0 {
        Some(int_scan_start())
    } else {
        match int_scan(ts.drop_last()) {
            Some(st) => int_step(st, ts.last()),
            None => None,
        }
    }
}

/// The tokens that the scan of `ts` yields: text between the numbers as plain
/// strings, and each run of digits as an integer, negative where two hyphens in a
/// row came before it. A text with no digit stays one plain string. `None` where a
/// number does not fit.
pub open spec fn split_spec(ts: Seq<LirToken>) -> Option<Seq<MirTokenView>> {
    match int_scan(ts) {
        None => None,
        Some(st) => match end_number(st) {
            None => None,
            Some(s) => Some(
                if s.out.len() == 0 {
                    s.out.push(MirTokenView::Str(s.text))
                } else {
                    flush(s.out, s.text)
                },
            ),
        },
    }
}

/// Why the number pass stopped on a token.
pub enum IntFault {
    /// The text of a plain string holds a character with no category.
    Unrecognized,
    /// A number does not fit its integer type.
    Overflow,
}

/// What the number pass makes of one token.
pub open spec fn int_token_outcome(t: MirTokenView) -> Result<Seq<MirTokenView>, IntFault> {
    match t {
        MirTokenView::Str(s) => if !classifiable(s) {
            Err(IntFault::Unrecognized)
        } else {
            match split_spec(lir_tokens_of(s)) {
                Some(p) => Ok(p),
                None => Err(IntFault::Overflow),
            }
        },
        _ => Ok(seq![t]),
    }
}

/// What the number pass makes of a stream: the tokens of each token in turn, or
/// the position of the first token it stops on, and why.
pub open spec fn int_pass(v: Seq<MirTokenView>) -> Result<Seq<MirTokenView>, (nat, IntFault)>
    decreases v.len(),
{
    if v.len() == 0 {
        Ok(Seq::empty())
    } else {
        match int_pass(v.drop_last()) {
            Err(e) => Err(e),
            Ok(done) => match int_token_outcome(v.last()) {
                Ok(p) => Ok(done + p),
                Err(f) => Err(((v.len() - 1) as nat, f)),
            },
        }
    }
}

/// `e` reports that the number pass stopped on token `i` of `v` for reason `f`;
/// for a character with no category, it names the first such character of the text.
pub open spec fn reports_int_fault(e: ParseError, v: Seq<MirTokenView>, i: nat, f: IntFault) -> bool {
    &&& e.idx == i
    &&& f is Overflow ==> e.kind is NumericLiteralOverflow
    &&& f is Unrecognized ==> (e.kind matches ParseErrorKind::UnrecognizedSymbol(c) && exists|k: int|
        first_unclassified(v[i as int]->Str_0, k) && v[i as int]->Str_0[k] == c)
}

proof fn lemma_scan_fails_stays(ts: Seq<LirToken>, k: int)
    requires
        0 <= k <= ts.len(),
        int_scan(ts.subrange(0, k)) is None,
    ensures
        int_scan(ts) is None,
    decreases ts.len() - k,
{
    if k == ts.len() {
        assert(ts.subrange(0, k) =~= ts);
    } else {
        assert(ts.subrange(0, k + 1).drop_last() =~= ts.subrange(0, k));
        lemma_scan_fails_stays(ts, k + 1);
    }
}

proof fn lemma_pass_fails_stays(v: Seq<MirTokenView>, k: int)
    requires
        0 <= k <= v.len(),
        int_pass(v.subrange(0, k)) is Err,
    ensures
        int_pass(v) == int_pass(v.subrange(0, k)),
    decreases v.len() - k,
{
    if k == v.len() {
        assert(v.subrange(0, k) =~= v);
    } else {
        assert(v.subrange(0, k + 1).drop_last() =~= v.subrange(0, k));
        lemma_pass_fails_stays(v, k + 1);
    }
}

/// Appends the integer token for `value` to `out`; `false`, with `out` unchanged,
/// where it does not fit.
fn emit_number(out: &mut Vec<MirToken>, value: u64, negative: bool) -> (r: bool)
    requires
        value <= 4294967295,
    ensures
        r == number_token(value as nat, negative) is Some,
        r ==> views_of(final(out)@) == views_of(old(out)@).push(
            number_token(value as nat, negative)->0,
        ),
        !r ==> final(out)@ == old(out)@,
{
    if negative {
        if value > 2147483648 {
            return false;
        }
        let v: i64 = -(value as i64);
        out.push(MirToken::Sint(v as i32));
    } else {
        out.push(MirToken::Uint(value as u32));
    }
    assert(views_of(out@) =~= views_of(old(out)@).push(out@.last()@));
    true
}

/// Splits the tokens of a plain string into text and integer tokens, or `None`
/// where a number does not fit.
pub fn split_numbers(ts: &[LirToken]) -> (r: Option<Vec<MirToken>>)
    ensures
        match split_spec(ts@) {
            Some(v) => r is Some && views_of(r->0@) == v,
            None => r is None,
        },
{
    let mut out: Vec<MirToken> = Vec::new();
    let mut text = String::new();
    let mut value: u64 = 0;
    let mut in_number = false;
    let mut negative = false;
    let mut after_hyphen = false;
    let mut i: usize = 0;
    assert(ts@.subrange(0, 0) =~= Seq::<LirToken>::empty());
    assert(views_of(out@) =~= Seq::<MirTokenView>::empty());
    while i < ts.len()
        invariant
            i <= ts@.len(),
            value <= 4294967295,
            int_scan(ts@.subrange(0, i as int)) == Some(
                IntScan {
                    out: views_of(out@),
                    text: text@,
                    value: value as nat,
                    in_number,
                    negative,
                    after_hyphen,
                },
            ),
        decreases ts@.len() - i,
    {
        let t = ts[i];
        assert(ts@.subrange(0, i + 1).drop_last() =~= ts@.subrange(0, i as int));
        let is_digit = match t {
            LirToken::Digit(c) => '0' <= c && c <= '9',
            _ => false,
        };
        if is_digit {
            let d = (t.as_char() as u32 - 48) as u64;
            if in_number {
                let v = value * 10 + d;
                if v > 4294967295 {
                    proof {
                        lemma_scan_fails_stays(ts@, i + 1);
                    }
                    return None;
                }
                value = v;
            } else {
                if text.as_str().unicode_len() > 0 {
                    let ghost before = views_of(out@);
                    let piece = text.clone();
                    out.push(MirToken::String(piece));
                    assert(views_of(out@) =~= before.push(MirTokenView::Str(text@)));
                }
                text = String::new();
                value = d;
                in_number = true;
            }
            after_hyphen = false;
        } else {
            if in_number {
                if !emit_number(&mut out, value, negative) {
                    proof {
                        lemma_scan_fails_stays(ts@, i + 1);
                    }
                    return None;
                }
                value = 0;
                in_number = false;
                negative = false;
            }
            let is_hyphen = matches!(t, LirToken::Hyphen);
            if is_hyphen && after_hyphen {
                negative = !negative;
            }
            push_char(&mut text, t.as_char());
            after_hyphen = is_hyphen;
        }
        i = i + 1;
    }
    assert(ts@.subrange(0, i as int) =~= ts@);
    if in_number {
        if !emit_number(&mut out, value, negative) {
            return None;
        }
    }
    if out.len() == 0 || text.as_str().unicode_len() > 0 {
        let ghost before = views_of(out@);
        out.push(MirToken::String(text));
        assert(views_of(out@) =~= before.push(MirTokenView::Str(text@)));
    }
    Some(out)
}

/// The pass that turns each run of digits in a plain string into an integer token.
#[derive(Debug, Clone, Copy)]
pub struct IntLitVisitor;

impl MirOptVisitor for IntLitVisitor {
    /// Runs the pass over `stream`, which is left as it was where the pass fails.
    fn visit(&self, stream: &mut MirTokenStream) -> (r: Result<(), ParseError>)
        ensures
            match int_pass(old(stream)@) {
                Ok(v) => r is Ok && final(stream)@ == v,
                Err((i, f)) => r is Err && *final(stream) == *old(stream) && reports_int_fault(
                    r->Err_0,
                    old(stream)@,
                    i,
                    f,
                ),
            },
    {
        let mut out: Vec<MirToken> = Vec::new();
        let mut i: usize = 0;
        assert(old(stream)@.subrange(0, 0) =~= Seq::<MirTokenView>::empty());
        assert(views_of(out@) =~= Seq::<MirTokenView>::empty());
        while i < stream.tokens.len()
            invariant
                *stream == *old(stream),
                i <= stream@.len(),
                int_pass(stream@.subrange(0, i as int)) == Ok::<
                    Seq<MirTokenView>,
                    (nat, IntFault),
                >(views_of(out@)),
            decreases stream@.len() - i,
        {
            let token = &stream.tokens[i];
            assert(stream@.subrange(0, i + 1).drop_last() =~= stream@.subrange(0, i as int));
            assert(stream@.subrange(0, i + 1).last() == token@);
            match token {
                MirToken::String(_) => {
                    match token.try_lower() {
                        Err((_, c)) => {
                            proof {
                                lemma_pass_fails_stays(stream@, i + 1);
                            }
                            return Err(
                                ParseError::new(ParseErrorKind::UnrecognizedSymbol(c), i),
                            );
                        },
                        Ok(_) => {},
                    }
                    let lowered = token.lower();
                    match split_numbers(lowered.as_slice()) {
                        None => {
                            proof {
                                lemma_pass_fails_stays(stream@, i + 1);
                            }
                            return Err(ParseError::new(ParseErrorKind::NumericLiteralOverflow, i));
                        },
                        Some(pieces) => {
                            let ghost before = views_of(out@);
                            let mut pieces = pieces;
                            out.append(&mut pieces);
                            assert(views_of(out@) =~= before + int_token_outcome(token@)->Ok_0);
                        },
                    }
                },
                _ => {
                    let ghost before = views_of(out@);
                    out.push(token.duplicate());
                    assert(views_of(out@) =~= before + seq![token@]);
                },
            }
            i = i + 1;
        }
        assert(stream@.subrange(0, i as int) =~= stream@);
        stream.tokens = out;
        Ok(())
    }
}

} // verus!
