use etalia::{raise_text, LirToken, MirToken, MirTokenStream, ParseError, ParseErrorKind};

#[test]
fn pipeline_citation() {
    assert_eq!(
        raise_text("Asmelash, L. (2019, August 14). CNN, p. 12"),
        Ok(MirTokenStream::new(vec![
            MirToken::str("Asmelash, L. "),
            MirToken::paren("2019, August 14"),
            MirToken::str(". CNN, p. "),
            MirToken::Uint(12),
        ]))
    );
}

#[test]
fn pipeline_unrecognized_symbol() {
    assert_eq!(
        raise_text("ab (c) #1"),
        Err(ParseError::new(ParseErrorKind::UnrecognizedSymbol('#'), 7))
    );
}

#[test]
fn pipeline_unbalanced() {
    assert_eq!(
        raise_text("a] 1"),
        Err(ParseError::new(
            ParseErrorKind::UnbalancedDelim(MirTokenStream::new(vec![]), LirToken::CloseBracket),
            1
        ))
    );
}

#[test]
fn pipeline_overflow() {
    assert_eq!(
        raise_text("(x) 99999999999"),
        Err(ParseError::new(ParseErrorKind::NumericLiteralOverflow, 2))
    );
}
