use eolina::error::Error;
use eolina::func;
use eolina::range::EolinaRange;
use eolina::range::EolinaRangeBound;
use eolina::range::IndexError;
use eolina::range::RangeError;
use eolina::token::CheckToken;
use eolina::token::MapToken;
use eolina::value::Kind;
use eolina::value::Value;

#[test]
fn func_split() {
    assert_eq!(
        func::split(Value::String("Abc".to_owned()), None).unwrap(),
        Value::StringVec(vec!["A".to_owned(), "b".to_owned(), "c".to_owned()])
    );
    assert_eq!(
        func::split(Value::String("Abcbdebfb".to_owned()), Some("b")).unwrap(),
        Value::StringVec(vec![
            "A".to_owned(),
            "c".to_owned(),
            "de".to_owned(),
            "f".to_owned()
        ])
    );
    assert!(func::split(Value::Bool(true), None).is_err());
}

#[test]
fn func_join() {
    assert_eq!(
        func::join(Value::StringVec(vec![
            "A".to_owned(),
            "b".to_owned(),
            "c".to_owned()
        ]))
        .unwrap(),
        Value::String("Abc".to_owned())
    );
    assert!(func::join(Value::Bool(true)).is_err());
}

#[test]
fn func_is_conso() {
    assert_eq!(
        func::is_conso(Value::String("bcd".to_owned())).unwrap(),
        Value::Bool(true)
    );
    assert_eq!(
        func::is_conso(Value::String("aei".to_owned())).unwrap(),
        Value::Bool(false)
    );
    assert!(func::is_conso(Value::Bool(true)).is_err());
}

#[test]
fn func_is_vowel() {
    assert_eq!(
        func::is_vowel(Value::String("bcd".to_owned())).unwrap(),
        Value::Bool(false)
    );
    assert_eq!(
        func::is_vowel(Value::String("aei".to_owned())).unwrap(),
        Value::Bool(true)
    );
    assert!(func::is_vowel(Value::Bool(true)).is_err());
}

#[test]
fn func_is_lower() {
    assert_eq!(
        func::is_lower(Value::String("ABC".to_owned())).unwrap(),
        Value::Bool(false)
    );
    assert_eq!(
        func::is_lower(Value::String("abc".to_owned())).unwrap(),
        Value::Bool(true)
    );
    assert!(func::is_lower(Value::Bool(true)).is_err());
}

#[test]
fn func_is_upper() {
    assert_eq!(
        func::is_upper(Value::String("ABC".to_owned())).unwrap(),
        Value::Bool(true)
    );
    assert_eq!(
        func::is_upper(Value::String("abc".to_owned())).unwrap(),
        Value::Bool(false)
    );
    assert!(func::is_upper(Value::Bool(true)).is_err());
}

#[test]
fn func_map() {
    assert_eq!(
        func::map(Value::String("aBc".to_owned()), MapToken::Lower).unwrap(),
        Value::String("abc".to_owned())
    );
    assert_eq!(
        func::map(Value::String("abC".to_owned()), MapToken::Upper).unwrap(),
        Value::String("ABC".to_owned())
    );
    assert_eq!(
        func::map(
            Value::StringVec(vec!["AbC".to_owned(), "dEf".to_owned()]),
            MapToken::Swap
        )
        .unwrap(),
        Value::StringVec(vec!["aBc".to_owned(), "DeF".to_owned()])
    );
    assert!(func::map(Value::Bool(true), MapToken::Lower).is_err());
}

#[test]
fn func_filter() {
    assert_eq!(
        func::filter(Value::String("abC".to_owned()), CheckToken::Vowel).unwrap(),
        Value::String("a".to_owned())
    );
    assert_eq!(
        func::filter(Value::String("aBc".to_owned()), CheckToken::Conso).unwrap(),
        Value::String("Bc".to_owned())
    );
    assert_eq!(
        func::filter(
            Value::StringVec(vec!["ABC".to_owned(), "def".to_owned()]),
            CheckToken::Upper
        )
        .unwrap(),
        Value::StringVec(vec!["ABC".to_owned()])
    );
    assert_eq!(
        func::filter(
            Value::StringVec(vec!["abc".to_owned(), "DEF".to_owned()]),
            CheckToken::Lower
        )
        .unwrap(),
        Value::StringVec(vec!["abc".to_owned()])
    );
    assert!(func::filter(Value::Bool(true), CheckToken::Vowel).is_err());
}

#[test]
fn func_slice_pos() {
    assert_eq!(
        func::slice(
            Value::String("abcdefg".to_owned()),
            EolinaRange::from_isize(None, None)
        )
        .unwrap(),
        Value::String("abcdefg".to_owned())
    );
    assert_eq!(
        func::slice(
            Value::String("abcdefg".to_owned()),
            EolinaRange::from_isize(Some(3), None)
        )
        .unwrap(),
        Value::String("defg".to_owned())
    );
    assert_eq!(
        func::slice(
            Value::String("abcdefg".to_owned()),
            EolinaRange::from_isize(None, Some(3))
        )
        .unwrap(),
        Value::String("abc".to_owned())
    );

    assert!(func::slice(
        Value::String("abcdefg".to_owned()),
        EolinaRange::from_isize(Some(3), Some(2))
    )
    .is_err());
    assert!(func::slice(
        Value::String("abcdefg".to_owned()),
        EolinaRange::from_isize(Some(8), None)
    )
    .is_err());
    assert!(func::slice(
        Value::String("abcdefg".to_owned()),
        EolinaRange::from_isize(None, Some(8))
    )
    .is_err());
}

#[test]
fn func_slice_neg() {
    assert_eq!(
        func::slice(
            Value::String("abcdefg".to_owned()),
            EolinaRange::from_isize(Some(-3), None)
        )
        .unwrap(),
        Value::String("efg".to_owned())
    );
    assert_eq!(
        func::slice(
            Value::String("abcdefg".to_owned()),
            EolinaRange::from_isize(None, Some(-3))
        )
        .unwrap(),
        Value::String("abcd".to_owned())
    );

    assert!(func::slice(
        Value::String("abcdefg".to_owned()),
        EolinaRange::from_isize(Some(-2), Some(-3))
    )
    .is_err());
    assert!(func::slice(
        Value::String("abcdefg".to_owned()),
        EolinaRange::from_isize(Some(-8), None)
    )
    .is_err());
    assert!(func::slice(
        Value::String("abcdefg".to_owned()),
        EolinaRange::from_isize(None, Some(-8))
    )
    .is_err());
}

#[test]
fn func_slice_neg_pos() {
    assert_eq!(
        func::slice(
            Value::String("abcdefg".to_owned()),
            EolinaRange::from_isize(Some(-3), Some(7))
        )
        .unwrap(),
        Value::String("efg".to_owned())
    );
    assert_eq!(
        func::slice(
            Value::String("abcdefg".to_owned()),
            EolinaRange::from_isize(Some(3), Some(-3))
        )
        .unwrap(),
        Value::String("d".to_owned())
    );
    assert!(func::slice(
        Value::String("abcdefg".to_owned()),
        EolinaRange::from_isize(Some(-8), Some(3))
    )
    .is_err());
    assert!(func::slice(
        Value::String("abcdefg".to_owned()),
        EolinaRange::from_isize(Some(3), Some(-8))
    )
    .is_err());
}

#[test]
fn concat_appends_matching_kinds() {
    assert_eq!(
        func::concat(
            Value::String("ab".to_owned()),
            Value::String("cd".to_owned())
        )
        .unwrap(),
        Value::String("abcd".to_owned())
    );
    assert_eq!(
        func::concat(
            Value::StringVec(vec!["a".to_owned()]),
            Value::StringVec(vec!["b".to_owned()])
        )
        .unwrap(),
        Value::StringVec(vec!["a".to_owned(), "b".to_owned()])
    );
}

#[test]
fn concat_mismatched_kinds() {
    // a string against a string list is a kind mismatch
    assert_eq!(
        func::concat(
            Value::String("a".to_owned()),
            Value::StringVec(vec!["b".to_owned()])
        )
        .unwrap_err(),
        Error::Mismatch(Kind::String, Kind::StringVec)
    );
    // a pairing that involves a boolean names the accepted kinds and the
    // other value's kind
    match func::concat(Value::String("a".to_owned()), Value::Bool(true)).unwrap_err() {
        Error::ArgMismatch(e) => {
            assert_eq!(e.expected, vec![Kind::String, Kind::StringVec]);
            assert_eq!(e.given, Kind::String);
        }
        other => panic!("unexpected error: {:?}", other),
    }
}

#[test]
fn index_selects_one_position() {
    assert_eq!(
        func::index(
            Value::String("abc".to_owned()),
            EolinaRangeBound::Start(1)
        )
        .unwrap(),
        Value::String("b".to_owned())
    );
    assert_eq!(
        func::index(Value::String("abc".to_owned()), EolinaRangeBound::End(1)).unwrap(),
        Value::String("c".to_owned())
    );
    assert_eq!(
        func::index(
            Value::StringVec(vec!["x".to_owned(), "y".to_owned()]),
            EolinaRangeBound::Start(0)
        )
        .unwrap(),
        Value::String("x".to_owned())
    );
    assert_eq!(
        func::index(
            Value::String("abc".to_owned()),
            EolinaRangeBound::Start(3)
        )
        .unwrap_err(),
        Error::Index(IndexError::OutOfTargetRange(EolinaRangeBound::Start(3), 3))
    );
    // -0 resolves to the length, which is not a valid position
    assert_eq!(
        func::index(Value::String("abc".to_owned()), EolinaRangeBound::End(0)).unwrap_err(),
        Error::Index(IndexError::OutOfTargetRange(EolinaRangeBound::End(0), 3))
    );
}

#[test]
fn split_on_literal_drops_empty_fragments() {
    assert_eq!(
        func::split(Value::String("bbabb".to_owned()), Some("b")).unwrap(),
        Value::StringVec(vec!["a".to_owned()])
    );
    assert_eq!(
        func::split(Value::String("".to_owned()), Some("b")).unwrap(),
        Value::StringVec(vec![])
    );
    assert_eq!(
        func::split(Value::String("ab".to_owned()), Some("")).unwrap(),
        Value::StringVec(vec!["a".to_owned(), "b".to_owned()])
    );
}

#[test]
fn slice_error_taxonomy() {
    // a bound out of the target range and incompatible bounds are two
    // distinct errors, never collapsed into one
    match func::slice(
        Value::String("abcdefg".to_owned()),
        EolinaRange::from_isize(Some(8), None),
    )
    .unwrap_err()
    {
        Error::Range(RangeError::OutOfTargetRange(_, _, _)) => {}
        other => panic!("unexpected error: {:?}", other),
    }
    match func::slice(
        Value::String("abcdefg".to_owned()),
        EolinaRange::from_isize(Some(3), Some(2)),
    )
    .unwrap_err()
    {
        Error::Range(RangeError::IncompatibleBounds(_, _)) => {}
        other => panic!("unexpected error: {:?}", other),
    }
}
