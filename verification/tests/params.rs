use panini::params::{ParamField, ParamValue, Params};
use panini::shapes::{check_pratyaya_check_shape, check_pratyaya_shape, check_sandhi_shape, check_sup_shape, check_tin_shape};

fn f(k: &str, v: ParamValue) -> ParamField {
    ParamField { key: k.to_string(), value: v }
}

fn text(s: &str) -> ParamValue {
    ParamValue::Text(s.to_string())
}

fn integer(s: &str) -> ParamValue {
    ParamValue::Number { integer: true, text: s.to_string() }
}

fn err(r: Result<(), String>) -> String {
    r.err().unwrap()
}

#[test]
fn wrong_types_are_reported_in_field_order() {
    let p = Params::Object(vec![
        f("first", text("a")),
        f("result", integer("5")),
        f("second", ParamValue::Bool(true)),
    ]);
    assert_eq!(err(check_sandhi_shape(&p)), "invalid type: integer `5`, expected a string");
    let p = Params::Object(vec![f("second", ParamValue::Bool(true)), f("result", integer("5"))]);
    assert_eq!(err(check_sandhi_shape(&p)), "invalid type: boolean `true`, expected a string");
}

#[test]
fn value_descriptions() {
    let one = |v: ParamValue| err(check_sandhi_shape(&Params::Object(vec![f("first", v)])));
    assert_eq!(one(ParamValue::Null), "invalid type: null, expected a string");
    assert_eq!(one(ParamValue::Bool(false)), "invalid type: boolean `false`, expected a string");
    assert_eq!(one(integer("-3")), "invalid type: integer `-3`, expected a string");
    assert_eq!(
        one(ParamValue::Number { integer: false, text: "1.5".to_string() }),
        "invalid type: floating point `1.5`, expected a string"
    );
    assert_eq!(one(ParamValue::TextList(vec![])), "invalid type: sequence, expected a string");
    assert_eq!(one(ParamValue::Object), "invalid type: map, expected a string");
}

#[test]
fn missing_fields_follow_the_record_order() {
    let p = Params::Object(vec![f("result", text("e")), f("other", integer("1"))]);
    assert_eq!(err(check_sandhi_shape(&p)), "missing field `first`");
    let p = Params::Object(vec![f("first", text("a")), f("result", text("e"))]);
    assert_eq!(err(check_sandhi_shape(&p)), "missing field `second`");
}

#[test]
fn duplicate_known_fields_are_refused() {
    let p = Params::Object(vec![
        f("first", text("a")),
        f("second", text("i")),
        f("result", text("e")),
        f("first", text("a")),
    ]);
    assert_eq!(err(check_sandhi_shape(&p)), "duplicate field `first`");
    let p = Params::Object(vec![
        f("first", text("a")),
        f("second", text("i")),
        f("result", text("e")),
        f("note", integer("1")),
        f("note", integer("2")),
    ]);
    assert!(check_sandhi_shape(&p).is_ok());
}

#[test]
fn optional_and_list_fields() {
    let base = || vec![
        f("stem_class", text("a-stem-m")),
        f("vibhakti", text("prathama")),
        f("vacana", text("ekavacana")),
        f("pratyaya", text("su")),
        f("suffix", text("s")),
    ];
    let mut v = base();
    v.push(f("markers", ParamValue::List(vec![text("u"), integer("1")])));
    assert_eq!(err(check_sup_shape(&Params::Object(v))), "invalid type: integer `1`, expected a string");
    let mut v = base();
    v.push(f("markers", text("u")));
    assert_eq!(err(check_sup_shape(&Params::Object(v))), "invalid type: string \"u\", expected a sequence");
    let mut v = base();
    v.push(f("markers", ParamValue::List(vec![text("u")])));
    assert!(check_sup_shape(&Params::Object(v)).is_ok());
    let tin = Params::Object(vec![
        f("lakara", text("laṭ")),
        f("purusha", text("prathama")),
        f("vacana", text("ekavacana")),
        f("pada", text("parasmaipada")),
        f("pratyaya_name", text("tip")),
        f("suffix", text("ti")),
        f("is_pit", ParamValue::Null),
    ]);
    assert_eq!(err(check_tin_shape(&tin)), "invalid type: null, expected a boolean");
}

#[test]
fn non_objects_name_the_record() {
    let p = Params::NotObject(ParamValue::Bool(true));
    assert_eq!(err(check_sandhi_shape(&p)), "invalid type: boolean `true`, expected struct SandhiParams");
    assert_eq!(err(check_pratyaya_shape(&p)), "invalid type: boolean `true`, expected struct PratyayaRule");
    assert_eq!(err(check_pratyaya_check_shape(&p)), "invalid type: boolean `true`, expected struct PratyayaParams");
    let p = Params::NotObject(ParamValue::Text("a\"b".to_string()));
    assert_eq!(err(check_sandhi_shape(&p)), "invalid type: string \"a\\\"b\", expected struct SandhiParams");
}
