use vstd::prelude::*;

use crate::lir::{
    classifiable, lemma_classify_keeps_char, lemma_render_round_trip, lir_of, lir_tokens_of,
    render_lir, unicode_alphabetic, unicode_numeric, unicode_whitespace, LirToken,
};
use crate::mir::{flush, MirTokenView};
use crate::visitors::int_lit_visitor::{
    end_number, int_pass, int_scan, int_step, int_token_outcome, is_ascii_digit_token, split_spec,
    IntFault,
};

verus! {

/// Every character of `s` is classified, and none as an ASCII digit.
pub open spec fn digit_free(s: Seq<char>) -> bool {
    forall|i: int|
        0 <= i < s.len() ==> (#[trigger] lir_of(s[i])) is Some && !is_ascii_digit_token(
            lir_of(s[i])->0,
        )
}

/// The number pass leaves `t` as it is.
pub open spec fn untouched(t: MirTokenView) -> bool {
    int_token_outcome(t) == Ok::<Seq<MirTokenView>, IntFault>(seq![t])
}

spec fn str_pieces_digit_free(out: Seq<MirTokenView>) -> bool {
    forall|i: int| 0 <= i < out.len() && (#[trigger] out[i]) is Str ==> digit_free(out[i]->Str_0)
}

spec fn self_classified(ts: Seq<LirToken>) -> bool {
    forall|i: int| 0 <= i < ts.len() ==> lir_of((#[trigger] ts[i]).char_of()) == Some(ts[i])
}

proof fn lemma_tokens_self_classified(s: Seq<char>)
    requires
        classifiable(s),
    ensures
        self_classified(lir_tokens_of(s)),
{
    assert forall|i: int| 0 <= i < lir_tokens_of(s).len() implies lir_of(
        (#[trigger] lir_tokens_of(s)[i]).char_of(),
    ) == Some(lir_tokens_of(s)[i]) by {
        assert(lir_of(s[i]) is Some);
        lemma_classify_keeps_char(
            s[i],
            unicode_whitespace(s[i]),
            unicode_alphabetic(s[i]),
            unicode_numeric(s[i]),
        );
    }
}

/// The text that the scan collects, and every plain string it emits, hold no digit.
proof fn lemma_scan_digit_free(ts: Seq<LirToken>)
    requires
        self_classified(ts),
        int_scan(ts) is Some,
    ensures
        digit_free(int_scan(ts)->0.text),
        str_pieces_digit_free(int_scan(ts)->0.out),
    decreases ts.len(),
{
    if ts.len() > 0 {
        let p = ts.drop_last();
        assert forall|i: int| 0 <= i < p.len() implies lir_of((#[trigger] p[i]).char_of()) == Some(
            p[i],
        ) by {
            assert(p[i] == ts[i]);
        }
        lemma_scan_digit_free(p);
        let st = int_scan(p)->0;
        let t = ts.last();
        assert(lir_of(ts[ts.len() - 1].char_of()) == Some(ts[ts.len() - 1]));
        let next = int_step(st, t)->0;
        if is_ascii_digit_token(t) {
            if !st.in_number {
                assert(digit_free(Seq::<char>::empty()));
                assert forall|i: int|
                    0 <= i < next.out.len() && (#[trigger] next.out[i]) is Str implies digit_free(
                    next.out[i]->Str_0,
                ) by {
                    if i < st.out.len() {
                        assert(next.out[i] == st.out[i]);
                    }
                }
            }
        } else {
            let s = end_number(st)->0;
            assert(str_pieces_digit_free(s.out)) by {
                assert forall|i: int| 0 <= i < s.out.len() && (#[trigger] s.out[i]) is Str implies digit_free(
                    s.out[i]->Str_0,
                ) by {
                    if i < st.out.len() {
                        assert(s.out[i] == st.out[i]);
                    }
                }
            }
            assert forall|i: int| 0 <= i < next.text.len() implies (#[trigger] lir_of(next.text[i])) is Some
                && !is_ascii_digit_token(lir_of(next.text[i])->0) by {
                if i < s.text.len() {
                    assert(next.text[i] == s.text[i]);
                } else {
                    assert(next.text[i] == t.char_of());
                }
            }
        }
    }
}

/// Scanning tokens without an ASCII digit only collects their text.
proof fn lemma_scan_no_digits(ts: Seq<LirToken>)
    requires
        forall|i: int| 0 <= i < ts.len() ==> !is_ascii_digit_token(#[trigger] ts[i]),
    ensures
        int_scan(ts) is Some,
        int_scan(ts)->0.out.len() == 0,
        !int_scan(ts)->0.in_number,
        int_scan(ts)->0.text == render_lir(ts),
    decreases ts.len(),
{
    if ts.len() == 0 {
        assert(render_lir(ts) =~= Seq::<char>::empty());
    } else {
        let p = ts.drop_last();
        assert forall|i: int| 0 <= i < p.len() implies !is_ascii_digit_token(#[trigger] p[i]) by {
            assert(p[i] == ts[i]);
        }
        lemma_scan_no_digits(p);
        assert(!is_ascii_digit_token(ts[ts.len() - 1]));
        assert(render_lir(ts) =~= render_lir(p).push(ts.last().char_of()));
    }
}

/// A plain string with no digit is left as it is.
proof fn lemma_digit_free_untouched(s: Seq<char>)
    requires
        digit_free(s),
    ensures
        untouched(MirTokenView::Str(s)),
{
    assert(classifiable(s)) by {
        assert forall|i: int| 0 <= i < s.len() implies (#[trigger] lir_of(s[i])) is Some by {
            assert(digit_free(s));
        }
    }
    let ts = lir_tokens_of(s);
    assert forall|i: int| 0 <= i < ts.len() implies !is_ascii_digit_token(#[trigger] ts[i]) by {
        assert(lir_of(s[i]) is Some);
    }
    lemma_scan_no_digits(ts);
    lemma_render_round_trip(s);
    let st = int_scan(ts)->0;
    assert(end_number(st) == Some(st));
    assert(st.out.push(MirTokenView::Str(st.text)) =~= seq![MirTokenView::Str(s)]);
    assert(split_spec(ts) == Some(seq![MirTokenView::Str(s)]));
}

/// Every token that the pass makes of one token is left as it is by the pass.
proof fn lemma_outcome_untouched(t: MirTokenView)
    requires
        int_token_outcome(t) is Ok,
    ensures
        forall|i: int|
            0 <= i < int_token_outcome(t)->Ok_0.len() ==> untouched(
                #[trigger] int_token_outcome(t)->Ok_0[i],
            ),
{
    let pieces = int_token_outcome(t)->Ok_0;
    match t {
        MirTokenView::Str(s) => {
            let ts = lir_tokens_of(s);
            lemma_tokens_self_classified(s);
            lemma_scan_digit_free(ts);
            let st = int_scan(ts)->0;
            let e = end_number(st)->0;
            assert(str_pieces_digit_free(e.out)) by {
                assert forall|i: int| 0 <= i < e.out.len() && (#[trigger] e.out[i]) is Str implies digit_free(
                    e.out[i]->Str_0,
                ) by {
                    if i < st.out.len() {
                        assert(e.out[i] == st.out[i]);
                    }
                }
            }
            assert(split_spec(ts) == Some(pieces));
            assert forall|i: int| 0 <= i < pieces.len() implies untouched(#[trigger] pieces[i]) by {
                if pieces[i] is Str {
                    if i < e.out.len() {
                        assert(pieces[i] == e.out[i]);
                    } else {
                        assert(pieces[i] == MirTokenView::Str(e.text));
                    }
                    lemma_digit_free_untouched(pieces[i]->Str_0);
                }
            }
        },
        _ => {},
    }
}

/// A stream whose every token the pass leaves as it is comes through unchanged.
proof fn lemma_untouched_stream(w: Seq<MirTokenView>)
    requires
        forall|i: int| 0 <= i < w.len() ==> untouched(#[trigger] w[i]),
    ensures
        int_pass(w) == Ok::<Seq<MirTokenView>, (nat, IntFault)>(w),
    decreases w.len(),
{
    if w.len() == 0 {
        assert(w =~= Seq::<MirTokenView>::empty());
    } else {
        let p = w.drop_last();
        assert forall|i: int| 0 <= i < p.len() implies untouched(#[trigger] p[i]) by {
            assert(p[i] == w[i]);
        }
        lemma_untouched_stream(p);
        assert(untouched(w[w.len() - 1]));
        assert(int_token_outcome(w.last()) == Ok::<Seq<MirTokenView>, IntFault>(seq![w.last()]));
        assert(p + seq![w.last()] =~= w);
    }
}

/// Every token of the pass's output is one that the pass leaves as it is.
proof fn lemma_pass_output_untouched(v: Seq<MirTokenView>)
    requires
        int_pass(v) is Ok,
    ensures
        forall|i: int|
            0 <= i < int_pass(v)->Ok_0.len() ==> untouched(#[trigger] int_pass(v)->Ok_0[i]),
    decreases v.len(),
{
    if v.len() > 0 {
        let p = v.drop_last();
        lemma_pass_output_untouched(p);
        lemma_outcome_untouched(v.last());
        let done = int_pass(p)->Ok_0;
        let pieces = int_token_outcome(v.last())->Ok_0;
        assert forall|i: int| 0 <= i < (done + pieces).len() implies untouched(
            #[trigger] (done + pieces)[i],
        ) by {
            if i < done.len() {
                assert((done + pieces)[i] == done[i]);
            } else {
                assert((done + pieces)[i] == pieces[i - done.len()]);
            }
        }
    }
}

/// Running the number pass on its own output changes nothing: the integers it made
/// are not scanned again, and the text between them holds no digit left to split.
pub proof fn lemma_int_pass_idempotent(v: Seq<MirTokenView>)
    requires
        int_pass(v) is Ok,
    ensures
        int_pass(int_pass(v)->Ok_0) == int_pass(v),
{
    lemma_pass_output_untouched(v);
    lemma_untouched_stream(int_pass(v)->Ok_0);
}

} // verus!
