use etalia::{LirToken, LirTokenStream};

#[test]
fn test_try_new() {
    assert_eq!(LirToken::try_new(','), Some(LirToken::Comma));
    assert_eq!(LirToken::try_new(':'), Some(LirToken::Colon));
    assert_eq!(LirToken::try_new(';'), Some(LirToken::Semicolon));
    assert_eq!(LirToken::try_new('\''), Some(LirToken::Apostrophe));
    assert_eq!(LirToken::try_new('?'), Some(LirToken::Question));
    assert_eq!(LirToken::try_new('!'), Some(LirToken::Exclamation));
    assert_eq!(LirToken::try_new('.'), Some(LirToken::Period));
    assert_eq!(LirToken::try_new('"'), Some(LirToken::Quote));
    assert_eq!(LirToken::try_new('('), Some(LirToken::OpenParen));
    assert_eq!(LirToken::try_new(')'), Some(LirToken::CloseParen));
    assert_eq!(LirToken::try_new('['), Some(LirToken::OpenBracket));
    assert_eq!(LirToken::try_new(']'), Some(LirToken::CloseBracket));
    assert_eq!(LirToken::try_new('{'), Some(LirToken::OpenBrace));
    assert_eq!(LirToken::try_new('}'), Some(LirToken::CloseBrace));
    assert_eq!(LirToken::try_new('/'), Some(LirToken::Slash));
    assert_eq!(LirToken::try_new('-'), Some(LirToken::Hyphen));
    assert_eq!(LirToken::try_new('a'), Some(LirToken::Alpha('a')));
    assert_eq!(LirToken::try_new('A'), Some(LirToken::Alpha('A')));
    assert_eq!(LirToken::try_new('0'), Some(LirToken::Digit('0')));
    assert_eq!(LirToken::try_new(' '), Some(LirToken::Wsp(' ')));
}

#[test]
fn test_as_char() {
    assert_eq!(LirToken::Comma.as_char(), ',');
    assert_eq!(LirToken::Colon.as_char(), ':');
    assert_eq!(LirToken::Semicolon.as_char(), ';');
    assert_eq!(LirToken::Apostrophe.as_char(), '\'');
    assert_eq!(LirToken::Question.as_char(), '?');
    assert_eq!(LirToken::Exclamation.as_char(), '!');
    assert_eq!(LirToken::Period.as_char(), '.');
    assert_eq!(LirToken::Quote.as_char(), '"');
    assert_eq!(LirToken::OpenParen.as_char(), '(');
    assert_eq!(LirToken::CloseParen.as_char(), ')');
    assert_eq!(LirToken::OpenBracket.as_char(), '[');
    assert_eq!(LirToken::CloseBracket.as_char(), ']');
    assert_eq!(LirToken::OpenBrace.as_char(), '{');
    assert_eq!(LirToken::CloseBrace.as_char(), '}');
    assert_eq!(LirToken::Slash.as_char(), '/');
    assert_eq!(LirToken::Hyphen.as_char(), '-');
    assert_eq!(LirToken::Alpha('a').as_char(), 'a');
    assert_eq!(LirToken::Alpha('A').as_char(), 'A');
    assert_eq!(LirToken::Digit('0').as_char(), '0');
    assert_eq!(LirToken::Wsp(' ').as_char(), ' ');
}

#[test]
fn test_is_term_punct() {
    assert!(LirToken::Question.is_term_punct());
    assert!(LirToken::Exclamation.is_term_punct());
    assert!(LirToken::Period.is_term_punct());
}

#[test]
fn test_is_nonterm_punct() {
    assert!(LirToken::Comma.is_nonterm_punct());
    assert!(LirToken::Colon.is_nonterm_punct());
    assert!(LirToken::Semicolon.is_nonterm_punct());
    assert!(LirToken::Apostrophe.is_nonterm_punct());
    assert!(LirToken::Hyphen.is_nonterm_punct());
}

#[test]
fn test_is_open_delim() {
    assert!(LirToken::OpenParen.is_open_delim());
    assert!(LirToken::OpenBrace.is_open_delim());
    assert!(LirToken::OpenBracket.is_open_delim());
}

#[test]
fn test_is_close_delim() {
    assert!(LirToken::CloseParen.is_close_delim());
    assert!(LirToken::CloseBrace.is_close_delim());
    assert!(LirToken::CloseBracket.is_close_delim());
}

#[test]
fn test_is_matching_delims() {
    assert!(LirToken::Quote.is_matching_delims(&LirToken::Quote));
    assert!(LirToken::OpenParen.is_matching_delims(&LirToken::CloseParen));
    assert!(LirToken::OpenBrace.is_matching_delims(&LirToken::CloseBrace));
    assert!(LirToken::OpenBracket.is_matching_delims(&LirToken::CloseBracket));
}

#[test]
fn test_impl_from_lir_token_for_char() {
    assert_eq!(char::from(LirToken::Comma), ',');
    assert_eq!(char::from(LirToken::Colon), ':');
    assert_eq!(char::from(LirToken::Semicolon), ';');
    assert_eq!(char::from(LirToken::Apostrophe), '\'');
    assert_eq!(char::from(LirToken::Question), '?');
    assert_eq!(char::from(LirToken::Exclamation), '!');
    assert_eq!(char::from(LirToken::Period), '.');
    assert_eq!(char::from(LirToken::Quote), '"');
    assert_eq!(char::from(LirToken::OpenParen), '(');
    assert_eq!(char::from(LirToken::CloseParen), ')');
    assert_eq!(char::from(LirToken::OpenBracket), '[');
    assert_eq!(char::from(LirToken::CloseBracket), ']');
    assert_eq!(char::from(LirToken::OpenBrace), '{');
    assert_eq!(char::from(LirToken::CloseBrace), '}');
    assert_eq!(char::from(LirToken::Slash), '/');
    assert_eq!(char::from(LirToken::Hyphen), '-');
    assert_eq!(char::from(LirToken::Alpha('a')), 'a');
    assert_eq!(char::from(LirToken::Alpha('A')), 'A');
    assert_eq!(char::from(LirToken::Digit('0')), '0');
    assert_eq!(char::from(LirToken::Wsp(' ')), ' ');
}

#[test]
fn test_try_new_empty() {
    let stream = LirTokenStream::try_new("");
    assert!(stream.is_ok_and(|s| s.tokens.is_empty()));
}

#[test]
fn test_try_new_1() {
    let stream = LirTokenStream::try_new("abc");
    assert!(stream.is_ok_and(|s| s.tokens
        == vec![
            LirToken::Alpha('a'),
            LirToken::Alpha('b'),
            LirToken::Alpha('c')
        ]));
}

#[test]
fn test_as_slice() {
    let stream = LirTokenStream::try_new("abc");
    assert!(stream.is_ok());

    let stream = stream.unwrap();
    assert_eq!(
        stream.as_slice(),
        &[
            LirToken::Alpha('a'),
            LirToken::Alpha('b'),
            LirToken::Alpha('c')
        ]
    );
}

#[test]
fn test_impl_display() {
    let stream = LirTokenStream::try_new("abc");
    assert!(stream.is_ok());

    let stream = stream.unwrap();
    assert_eq!(stream.to_string(), "abc");
}

#[test]
fn test_impl_from_vec() {
    let tokens = vec![
        LirToken::Alpha('a'),
        LirToken::Alpha('b'),
        LirToken::Alpha('c'),
    ];

    assert_eq!(LirTokenStream::from(tokens.clone()).tokens, tokens.clone());
}

#[test]
fn try_new_unclassifiable_chars() {
    assert_eq!(LirToken::try_new('#'), None);
    assert_eq!(LirToken::try_new('\u{0}'), None);
}

#[test]
fn try_new_unicode_categories() {
    assert_eq!(LirToken::try_new('\u{3000}'), Some(LirToken::Wsp('\u{3000}')));
    assert_eq!(LirToken::try_new('\n'), Some(LirToken::Wsp('\n')));
    assert_eq!(LirToken::try_new('é'), Some(LirToken::Alpha('é')));
    assert_eq!(LirToken::try_new('٣'), Some(LirToken::Digit('٣')));
    assert_eq!(LirToken::try_new('½'), Some(LirToken::Digit('½')));
}

#[test]
fn classify_uses_supplied_properties() {
    assert_eq!(LirToken::classify('x', true, true, true), Some(LirToken::Wsp('x')));
    assert_eq!(LirToken::classify('x', false, true, true), Some(LirToken::Alpha('x')));
    assert_eq!(LirToken::classify('x', false, false, true), Some(LirToken::Digit('x')));
    assert_eq!(LirToken::classify('x', false, false, false), None);
    assert_eq!(LirToken::classify('(', true, true, true), Some(LirToken::OpenParen));
}

#[test]
fn non_matching_delims() {
    assert!(!LirToken::OpenParen.is_matching_delims(&LirToken::CloseBrace));
    assert!(!LirToken::CloseParen.is_matching_delims(&LirToken::OpenParen));
    assert!(!LirToken::Comma.is_term_punct());
    assert!(!LirToken::Period.is_nonterm_punct());
    assert!(!LirToken::CloseParen.is_open_delim());
    assert!(!LirToken::OpenParen.is_close_delim());
}

#[test]
fn stream_round_trip() {
    let s = "Smith, J. (2020). \"A title\" [online] {x}; p/q - ok? yes!";
    let stream = LirTokenStream::try_new(s).unwrap();
    assert_eq!(stream.tokens.len(), s.chars().count());
    assert_eq!(stream.to_string(), s);
}

#[test]
fn stream_reports_first_unclassified() {
    assert_eq!(LirTokenStream::try_new("ab\u{0}c#"), Err((2, '\u{0}')));
    assert_eq!(LirTokenStream::try_new("é#"), Err((1, '#')));
    assert_eq!(LirTokenStream::try_new("#"), Err((0, '#')));
}

#[test]
fn try_from_char() {
    assert_eq!(LirToken::try_from('('), Ok(LirToken::OpenParen));
    assert_eq!(LirToken::try_from('z'), Ok(LirToken::Alpha('z')));
    assert_eq!(LirToken::try_from('#'), Err(()));
}
