use eolina::error::ParseError;
use eolina::token::CheckToken;
use eolina::token::MapToken;
use eolina::iter::Iter;
use eolina::next_token;
use eolina::range::EolinaRange;
use eolina::range::EolinaRangeBound;
use eolina::token::Token;

#[test]
fn next_token_in_out() {
    // `<>` yields the input token (length one), then on the remainder the
    // output token (length one), consuming the entire string
    let (rest, tok, len) = next_token("<>").unwrap();
    assert_eq!(tok, Token::In);
    assert_eq!(len, 1);
    assert_eq!(rest, ">");

    let (rest, tok, len) = next_token(rest).unwrap();
    assert_eq!(tok, Token::Out);
    assert_eq!(len, 1);
    assert_eq!(rest, "");
}

#[test]
fn next_token_split_forms() {
    let (rest, tok, len) = next_token("//").unwrap();
    assert_eq!(tok, Token::Split(None));
    assert_eq!(len, 2);
    assert_eq!(rest, "");

    let (rest, tok, len) = next_token("/\"ab\"/").unwrap();
    assert_eq!(tok, Token::Split(Some("ab".to_owned())));
    assert_eq!(len, 6);
    assert_eq!(rest, "");
}

#[test]
fn next_token_rotate_and_args() {
    let (_, tok, len) = next_token("@").unwrap();
    assert_eq!(tok, Token::Rotate(1));
    assert_eq!(len, 1);

    let (_, tok, len) = next_token("@3").unwrap();
    assert_eq!(tok, Token::Rotate(3));
    assert_eq!(len, 2);

    let (_, tok, len) = next_token("@0").unwrap();
    assert_eq!(tok, Token::Rotate(1));
    assert_eq!(len, 2);
}

#[test]
fn next_token_map_and_filter() {
    let (_, tok, len) = next_token("{_}").unwrap();
    assert_eq!(tok, Token::Mapping(MapToken::Lower));
    assert_eq!(len, 3);

    let (_, tok, _) = next_token("{^}").unwrap();
    assert_eq!(tok, Token::Mapping(MapToken::Upper));

    let (_, tok, _) = next_token("{%}").unwrap();
    assert_eq!(tok, Token::Mapping(MapToken::Swap));

    let (_, tok, len) = next_token("[v]").unwrap();
    assert_eq!(tok, Token::Filter(CheckToken::Vowel));
    assert_eq!(len, 3);

    let (_, tok, _) = next_token("[c]").unwrap();
    assert_eq!(tok, Token::Filter(CheckToken::Conso));

    let (_, tok, _) = next_token("[_]").unwrap();
    assert_eq!(tok, Token::Filter(CheckToken::Lower));

    let (_, tok, _) = next_token("[^]").unwrap();
    assert_eq!(tok, Token::Filter(CheckToken::Upper));
}

#[test]
fn next_token_slice_and_index() {
    let (_, tok, len) = next_token("|.|").unwrap();
    assert_eq!(tok, Token::Slice(EolinaRange::from_isize(None, None)));
    assert_eq!(len, 3);

    let (_, tok, len) = next_token("|3.-2|").unwrap();
    assert_eq!(
        tok,
        Token::Slice(EolinaRange::from_isize(Some(3), Some(-2)))
    );
    assert_eq!(len, 6);

    let (_, tok, len) = next_token("|-0.|").unwrap();
    assert_eq!(
        tok,
        Token::Slice(EolinaRange::new(Some(EolinaRangeBound::End(0)), None))
    );
    assert_eq!(len, 5);

    let (_, tok, len) = next_token("|42|").unwrap();
    assert_eq!(tok, Token::Index(EolinaRangeBound::Start(42)));
    assert_eq!(len, 4);

    let (_, tok, len) = next_token("|-42|").unwrap();
    assert_eq!(tok, Token::Index(EolinaRangeBound::End(42)));
    assert_eq!(len, 5);
}

#[test]
fn next_token_whitespace_counts() {
    // leading whitespace is consumed and counts towards the length
    let (rest, tok, len) = next_token("  <>").unwrap();
    assert_eq!(tok, Token::In);
    assert_eq!(len, 3);
    assert_eq!(rest, ">");
}

#[test]
fn next_token_errors() {
    assert_eq!(next_token("").unwrap_err(), ParseError::Empty);
    assert_eq!(next_token("   ").unwrap_err(), ParseError::Empty);
    assert_eq!(
        next_token("x<>").unwrap_err(),
        ParseError::Unknown("x<>".to_owned())
    );
    assert_eq!(
        next_token("  |.").unwrap_err(),
        ParseError::Unknown("|.".to_owned())
    );
}

#[test]
fn token_iter() {
    let mut stream = Iter::new("<>//|.|");
    let mut tokens = Vec::new();
    while let Some(item) = stream.next() {
        tokens.push(item.expect("the given tokens are valid"));
    }

    assert_eq!(
        tokens,
        vec![
            (Token::In, 1),
            (Token::Out, 1),
            (Token::Split(None), 2),
            (Token::Slice(EolinaRange::from_isize(None, None)), 3)
        ]
    );
}

#[test]
fn token_iter_error() {
    let mut stream = Iter::new("<>/|.");
    let mut failed = false;
    while let Some(item) = stream.next() {
        if item.is_err() {
            failed = true;
        }
    }
    assert!(failed, "`|.` is invalid");

    let mut stream = Iter::new("|.");
    stream.next();

    assert!(stream.error());
}
