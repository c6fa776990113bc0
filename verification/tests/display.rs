use eolina::fmt_iter;
use eolina::value::Value;

#[test]
fn fmt_iter_empty() {
    let items: Vec<String> = vec![];
    let res = fmt_iter(&items);
    assert_eq!(res, "[]")
}

#[test]
fn fmt_iter_string() {
    let items: Vec<String> = vec!["aaa".to_owned(), "bbb".to_owned(), "ccc".to_owned()];
    let res = fmt_iter(&items);
    assert_eq!(res, "[aaa, bbb, ccc]")
}

#[test]
fn fmt_iter_value() {
    let values = [
        Value::String("aaa".to_owned()),
        Value::String("bbb".to_owned()),
        Value::String("ccc".to_owned()),
    ];
    let items: Vec<String> = values.iter().map(|v| v.render_debug()).collect();
    let res = fmt_iter(&items);
    assert_eq!(res, r#"["aaa", "bbb", "ccc"]"#)
}

#[test]
fn render_forms() {
    assert_eq!(Value::String("ab".to_owned()).render(), "ab");
    assert_eq!(
        Value::StringVec(vec!["a".to_owned(), "b".to_owned()]).render(),
        "[a, b]"
    );
    assert_eq!(Value::Bool(true).render(), "true");
    assert_eq!(Value::Bool(false).render(), "false");
    assert_eq!(Value::String("a\"b".to_owned()).render_debug(), r#""a\"b""#);
}
