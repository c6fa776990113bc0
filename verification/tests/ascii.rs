use eolina::ascii::AsciiExt;

#[test]
fn char_into_lower() {
    assert_eq!('a'.into_lower(), 'a');
    assert_eq!('B'.into_lower(), 'b');
    assert_eq!('6'.into_lower(), '6');
}

#[test]
fn char_into_upper() {
    assert_eq!('a'.into_upper(), 'A');
    assert_eq!('B'.into_upper(), 'B');
    assert_eq!('6'.into_upper(), '6');
}

#[test]
fn char_into_swap() {
    assert_eq!('a'.into_swap(), 'A');
    assert_eq!('B'.into_swap(), 'b');
    assert_eq!('6'.into_swap(), '6');
}

#[test]
fn char_is_lower() {
    assert!(!'A'.to_owned().is_lower());
    assert!('b'.to_owned().is_lower());
    assert!(!'6'.to_owned().is_lower());
}

#[test]
fn char_is_upper() {
    assert!('A'.to_owned().is_upper());
    assert!(!'b'.to_owned().is_upper());
    assert!(!'6'.to_owned().is_upper());
}

#[test]
fn char_is_vowel() {
    assert!('a'.to_owned().is_vowel());
    assert!(!'B'.to_owned().is_vowel());
    assert!(!'!'.to_owned().is_vowel());
}

#[test]
fn char_is_conso() {
    assert!(!'a'.to_owned().is_conso());
    assert!('B'.to_owned().is_conso());
    assert!(!'!'.to_owned().is_conso());
}

#[test]
fn string_into_lower() {
    assert_eq!("aA".to_owned().into_lower(), "aa");
    assert_eq!("Bb".to_owned().into_lower(), "bb");
    assert_eq!("6!".to_owned().into_lower(), "6!");
}

#[test]
fn string_into_upper() {
    assert_eq!("aA".to_owned().into_upper(), "AA");
    assert_eq!("Bb".to_owned().into_upper(), "BB");
    assert_eq!("6!".to_owned().into_upper(), "6!");
}

#[test]
fn string_into_swap() {
    assert_eq!("aA".to_owned().into_swap(), "Aa");
    assert_eq!("Bb".to_owned().into_swap(), "bB");
    assert_eq!("6!".to_owned().into_swap(), "6!");
}

#[test]
fn string_is_lower() {
    assert!("abc".to_owned().is_lower());
    assert!(!"Abc".to_owned().is_lower());
    assert!(!"6!".to_owned().is_lower());
}

#[test]
fn string_is_upper() {
    assert!(!"aBc".to_owned().is_upper());
    assert!("ABC".to_owned().is_upper());
    assert!(!"6!".to_owned().is_upper());
}

#[test]
fn string_is_vowel() {
    assert!("aEi".to_owned().is_vowel());
    assert!(!"Abe".to_owned().is_vowel());
    assert!(!"aB!".to_owned().is_vowel());
}

#[test]
fn string_is_conso() {
    assert!(!"aBi".to_owned().is_conso());
    assert!("bcD".to_owned().is_conso());
    assert!(!"Bc!".to_owned().is_conso());
}
