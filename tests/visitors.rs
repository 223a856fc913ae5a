use etalia::visitors::int_lit_visitor::split_numbers;
use etalia::{
    BidiDelimStringsVisitor, IntLitVisitor, LirRaiseVisitor, LirToken, LirTokenStream,
    MirOptVisitor, MirToken, MirTokenStream, ParseError, ParseErrorKind,
};

fn group(s: &str) -> Result<MirTokenStream, ParseError> {
    let stream = LirTokenStream::try_new(s).unwrap();
    BidiDelimStringsVisitor {}.visit(stream)
}

fn numbers(tokens: Vec<MirToken>) -> (Result<(), ParseError>, MirTokenStream) {
    let mut stream = MirTokenStream::new(tokens);
    let r = IntLitVisitor {}.visit(&mut stream);
    (r, stream)
}

#[test]
fn test() {
    let s = "Asmelash, L. (2019, August 14). Social media use may harm teens' mental health by disrupting positive activities, study says. CNN.";
    let stream = LirTokenStream::try_new(s).unwrap();

    let v = BidiDelimStringsVisitor {};
    let tokens = v.visit(stream);

    assert_eq!(
        tokens,
        Ok(MirTokenStream::new(vec![
            MirToken::String("Asmelash, L. ".to_string()),
            MirToken::ParenString("2019, August 14".to_string()),
            MirToken::String(". Social media use may harm teens' mental health by disrupting positive activities, study says. CNN.".to_string()),
        ]))
    )
}

#[test]
fn grouping_short_citation() {
    assert_eq!(
        group("Asmelash, L. (2019, August 14)."),
        Ok(MirTokenStream::new(vec![
            MirToken::str("Asmelash, L. "),
            MirToken::paren("2019, August 14"),
            MirToken::str("."),
        ]))
    );
}

#[test]
fn grouping_each_kind() {
    assert_eq!(
        group("a(b)c{d}e[f]"),
        Ok(MirTokenStream::new(vec![
            MirToken::str("a"),
            MirToken::paren("b"),
            MirToken::str("c"),
            MirToken::brace("d"),
            MirToken::str("e"),
            MirToken::bracket("f"),
        ]))
    );
    assert_eq!(
        group("(x)"),
        Ok(MirTokenStream::new(vec![MirToken::str(""), MirToken::paren("x")]))
    );
    assert_eq!(group(""), Ok(MirTokenStream::new(vec![])));
    assert_eq!(
        group("say \"hi\""),
        Ok(MirTokenStream::new(vec![MirToken::str("say \"hi\"")]))
    );
}

#[test]
fn grouping_unmatched_close() {
    assert_eq!(
        group("ab)c"),
        Err(ParseError::new(
            ParseErrorKind::UnbalancedDelim(MirTokenStream::new(vec![]), LirToken::CloseParen),
            2
        ))
    );
    assert_eq!(
        group("x(a]"),
        Err(ParseError::new(
            ParseErrorKind::UnbalancedDelim(
                MirTokenStream::new(vec![MirToken::str("x")]),
                LirToken::CloseBracket
            ),
            3
        ))
    );
}

#[test]
fn grouping_unclosed_open() {
    assert_eq!(
        group("x (ab"),
        Err(ParseError::new(
            ParseErrorKind::UnbalancedDelim(
                MirTokenStream::new(vec![MirToken::str("x "), MirToken::str("ab")]),
                LirToken::OpenParen
            ),
            5
        ))
    );
}

#[test]
fn grouping_lowered_tokens() {
    for t in [MirToken::paren("a, b"), MirToken::brace("c"), MirToken::bracket("")] {
        let raised = BidiDelimStringsVisitor {}.visit(t.lower());
        assert_eq!(raised, Ok(MirTokenStream::new(vec![MirToken::str(""), t.clone()])));
    }
    let t = MirToken::str("plain text");
    assert_eq!(
        BidiDelimStringsVisitor {}.visit(t.lower()),
        Ok(MirTokenStream::new(vec![t.clone()]))
    );
}

#[test]
fn numbers_negative() {
    let (r, stream) = numbers(vec![MirToken::str("-- 42")]);
    assert_eq!(r, Ok(()));
    assert_eq!(
        stream,
        MirTokenStream::new(vec![MirToken::str("-- "), MirToken::Sint(-42)])
    );
}

#[test]
fn numbers_unsigned() {
    let (r, stream) = numbers(vec![MirToken::str("42")]);
    assert_eq!(r, Ok(()));
    assert_eq!(stream, MirTokenStream::new(vec![MirToken::Uint(42)]));
}

#[test]
fn numbers_in_text() {
    let (r, stream) = numbers(vec![
        MirToken::str("pp. 12-15, vol 3"),
        MirToken::paren("2019"),
        MirToken::str(""),
        MirToken::str("no digits"),
    ]);
    assert_eq!(r, Ok(()));
    assert_eq!(
        stream,
        MirTokenStream::new(vec![
            MirToken::str("pp. "),
            MirToken::Uint(12),
            MirToken::str("-"),
            MirToken::Uint(15),
            MirToken::str(", vol "),
            MirToken::Uint(3),
            MirToken::paren("2019"),
            MirToken::str(""),
            MirToken::str("no digits"),
        ])
    );
}

#[test]
fn numbers_twice_same() {
    let (r, once) = numbers(vec![
        MirToken::str("a --7 b 2020"),
        MirToken::Uint(5),
        MirToken::str("x"),
    ]);
    assert_eq!(r, Ok(()));
    let mut twice = once.clone();
    assert_eq!(IntLitVisitor {}.visit(&mut twice), Ok(()));
    assert_eq!(twice, once);
    assert_eq!(
        once,
        MirTokenStream::new(vec![
            MirToken::str("a --"),
            MirToken::Sint(-7),
            MirToken::str(" b "),
            MirToken::Uint(2020),
            MirToken::Uint(5),
            MirToken::str("x"),
        ])
    );
}

#[test]
fn numbers_limits() {
    let (r, stream) = numbers(vec![MirToken::str("4294967295 --2147483648")]);
    assert_eq!(r, Ok(()));
    assert_eq!(
        stream,
        MirTokenStream::new(vec![
            MirToken::Uint(4294967295),
            MirToken::str(" --"),
            MirToken::Sint(i32::MIN),
        ])
    );
}

#[test]
fn numbers_overflow() {
    let input = vec![MirToken::Uint(1), MirToken::str("x 4294967296")];
    let (r, stream) = numbers(input.clone());
    assert_eq!(r, Err(ParseError::new(ParseErrorKind::NumericLiteralOverflow, 1)));
    assert_eq!(stream, MirTokenStream::new(input));

    let (r, _) = numbers(vec![MirToken::str("--2147483649")]);
    assert_eq!(r, Err(ParseError::new(ParseErrorKind::NumericLiteralOverflow, 0)));
}

#[test]
fn numbers_unrecognized_symbol() {
    let (r, _) = numbers(vec![MirToken::str("ok"), MirToken::str("1#2")]);
    assert_eq!(r, Err(ParseError::new(ParseErrorKind::UnrecognizedSymbol('#'), 1)));
}

#[test]
fn split_numbers_direct() {
    let tokens = LirTokenStream::try_new("x-1").unwrap();
    assert_eq!(
        split_numbers(tokens.as_slice()),
        Some(vec![MirToken::str("x-"), MirToken::Uint(1)])
    );
    assert_eq!(split_numbers(&[]), Some(vec![MirToken::str("")]));
    assert_eq!(
        split_numbers(&[LirToken::Digit('٣')]),
        Some(vec![MirToken::str("٣")])
    );
}
