use cmp_json::{cmp_expected, Number, Object, Value};

fn text(t: &str) -> Value {
    Value::String(t.to_string())
}

fn whole(n: i64) -> Value {
    Value::Number(Number::from_i64(n))
}

fn float(x: f64) -> Value {
    Value::Number(Number::from_f64_bits(x.to_bits()).unwrap())
}

fn object(entries: Vec<(&str, Value)>) -> Value {
    let mut o = Object::new();
    for (key, value) in entries {
        o.insert(key.to_string(), value);
    }
    Value::Object(o)
}

fn nested() -> Value {
    Value::Array(vec![
        object(vec![("first", Value::Bool(true))]),
        object(vec![("second", whole(2)), ("third", Value::Null)]),
    ])
}

#[test]
fn null_equal() {
    let got = Value::Null;
    let exp = Value::Null;
    assert_eq!(cmp_expected(&got, &exp), true);
}

#[test]
fn null_unequal() {
    let got = text("Null");
    let exp = Value::Null;
    assert_eq!(cmp_expected(&got, &exp), false);
}

#[test]
fn string_equal() {
    let got = text("something");
    let exp = text("something");
    assert_eq!(cmp_expected(&got, &exp), true);
}

#[test]
fn string_unequal() {
    let got = text("something");
    let exp = text("something else");
    assert_eq!(cmp_expected(&got, &exp), false);
}

#[test]
fn number_equal() {
    let got = float(-12.3);
    let exp = float(-12.3);
    assert_eq!(cmp_expected(&got, &exp), true);
}

#[test]
fn number_unequal() {
    let got = float(-12.5);
    let exp = whole(6);
    assert_eq!(cmp_expected(&got, &exp), false);
}

#[test]
fn bool_equal() {
    let got = Value::Bool(true);
    let exp = Value::Bool(true);
    assert_eq!(cmp_expected(&got, &exp), true);
}

#[test]
fn bool_unequal() {
    let got = Value::Bool(true);
    let exp = Value::Bool(false);
    assert_eq!(cmp_expected(&got, &exp), false);
}

#[test]
fn vector_equal() {
    let got = Value::Array(vec![
        text("string"),
        whole(1234),
        Value::Bool(false),
        Value::Array(vec![whole(1), whole(2), whole(3)]),
    ]);
    let exp = Value::Array(vec![
        text("string"),
        whole(1234),
        Value::Bool(false),
        Value::Array(vec![whole(1), whole(2), whole(3)]),
    ]);
    assert_eq!(cmp_expected(&got, &exp), true);
}

#[test]
fn vector_unequal_values() {
    let got = Value::Array(vec![text("string"), whole(1234), text("false")]);
    let exp = Value::Array(vec![text("string"), whole(1234), Value::Bool(false)]);
    assert_eq!(cmp_expected(&got, &exp), false);
}

#[test]
fn vector_unequal_lengths_exp_longer() {
    let got = Value::Array(vec![
        text("string"),
        whole(1234),
        Value::Bool(false),
        text("extra"),
    ]);
    let exp = Value::Array(vec![text("string"), whole(1234), Value::Bool(false)]);
    assert_eq!(cmp_expected(&got, &exp), false);
}

#[test]
fn vector_unequal_lengths_got_longer() {
    let got = Value::Array(vec![text("string"), whole(1234), Value::Bool(false)]);
    let exp = Value::Array(vec![
        text("string"),
        whole(1234),
        Value::Bool(false),
        text("extra"),
    ]);
    assert_eq!(cmp_expected(&got, &exp), false);
}

#[test]
fn vector_unequal_nested() {
    let got = Value::Array(vec![
        text("string"),
        whole(1234),
        Value::Bool(false),
        Value::Array(vec![whole(1), whole(2), whole(3), text("wrong")]),
    ]);
    let exp = Value::Array(vec![
        text("string"),
        whole(1234),
        Value::Bool(false),
        Value::Array(vec![whole(1), whole(2), whole(3)]),
    ]);
    assert_eq!(cmp_expected(&got, &exp), false);
}

#[test]
fn object_equal() {
    let got = object(vec![("foo", text("bar")), ("baz", nested())]);
    let exp = object(vec![("foo", text("bar")), ("baz", nested())]);
    assert_eq!(cmp_expected(&got, &exp), true);
}

#[test]
fn object_equal_extra_got() {
    let got = object(vec![
        ("foo", text("bar")),
        ("baz", nested()),
        ("another", text("field")),
    ]);
    let exp = object(vec![("foo", text("bar")), ("baz", nested())]);
    assert_eq!(cmp_expected(&got, &exp), true);
}

#[test]
fn object_unequal_extra_exp() {
    let got = object(vec![("foo", text("bar")), ("baz", nested())]);
    let exp = object(vec![
        ("foo", text("bar")),
        ("baz", nested()),
        ("another", text("field")),
    ]);
    assert_eq!(cmp_expected(&got, &exp), false);
}

#[test]
fn object_unequal_values() {
    let got = object(vec![("foo", text("bar!!")), ("baz", nested())]);
    let exp = object(vec![("foo", text("bar")), ("baz", nested())]);
    assert_eq!(cmp_expected(&got, &exp), false);
}
