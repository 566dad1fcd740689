//! Rule parameters: the JSON object that every rule carries, held as plain
//! values, and the typed reading of its fields.
use vstd::prelude::*;
use crate::text::{concat3, owned};

verus! {

/// A JSON value as rule parameters hold it.
///
/// An array of strings is a `TextList`; any other array is a `List`. A number
/// keeps whether it is an integer and its decimal text; a nested object keeps
/// only that it is one.
pub enum ParamValue {
    Null,
    Bool(bool),
    Number { integer: bool, text: String },
    Text(String),
    TextList(Vec<String>),
    List(Vec<ParamValue>),
    Object,
}

/// One `"key": value` member of a parameter object.
pub struct ParamField {
    pub key: String,
    pub value: ParamValue,
}

/// The parameters of a rule: a JSON object, or some other JSON value.
pub enum Params {
    Object(Vec<ParamField>),
    NotObject(ParamValue),
}

/// A rule as loaded from the rule store: its parameters and its statement.
pub struct CachedRule {
    pub params: Params,
    pub statement: String,
}

/// How a field is read.
#[derive(Clone, Copy, PartialEq, Eq, Structural)]
pub enum FieldKind {
    /// A string that must be present.
    Required,
    /// A string that defaults to the empty string when absent.
    TextOrEmpty,
    /// A string that may be absent or null.
    OptionalText,
    /// A boolean that defaults to false when absent.
    Flag,
    /// A boolean that may be absent or null.
    OptionalFlag,
    /// A list of strings that defaults to empty when absent.
    TextList,
}

/// The fields of a parameter object (none for a non-object).
pub open spec fn fields_of(p: Params) -> Seq<ParamField> {
    match p {
        Params::Object(v) => v@,
        Params::NotObject(_) => Seq::empty(),
    }
}

/// The value of the first field named `key`.
pub open spec fn lookup(fields: Seq<ParamField>, key: Seq<char>) -> Option<ParamValue>
    decreases fields.len(),
{
    if fields.len() == 0 {
        None
    } else if fields[0].key@ == key {
        Some(fields[0].value)
    } else {
        lookup(fields.drop_first(), key)
    }
}

/// Every item of a list is a string.
pub open spec fn all_text(items: Seq<ParamValue>) -> bool {
    forall|i: int| 0 <= i < items.len() ==> items[i] is Text
}

/// The text of a string value (empty for any other value).
pub open spec fn value_text(v: ParamValue) -> Seq<char> {
    match v {
        ParamValue::Text(s) => s@,
        _ => Seq::empty(),
    }
}

/// Whether every item of a list is a string.
pub fn texts_only(items: &Vec<ParamValue>) -> (r: bool)
    ensures
        r == all_text(items@),
{
    let n = items.len();
    let mut i: usize = 0;
    while i < n
        invariant
            n == items@.len(),
            i <= n,
            forall|j: int| 0 <= j < i ==> items@[j] is Text,
        decreases n - i,
    {
        if !matches!(items[i], ParamValue::Text(_)) {
            return false;
        }
        i += 1;
    }
    true
}

/// The texts of a list of strings.
fn list_texts(items: &Vec<ParamValue>) -> (r: Vec<String>)
    requires
        all_text(items@),
    ensures
        r@.map_values(|t: String| t@) == items@.map_values(|x: ParamValue| value_text(x)),
{
    let n = items.len();
    let mut out: Vec<String> = Vec::new();
    let mut i: usize = 0;
    while i < n
        invariant
            n == items@.len(),
            i <= n,
            all_text(items@),
            out@.map_values(|t: String| t@) == items@.take(i as int).map_values(|x: ParamValue| value_text(x)),
        decreases n - i,
    {
        match &items[i] {
            ParamValue::Text(t) => {
                let c = t.clone();
                assert(c@ == value_text(items@[i as int]));
                let ghost before = out@;
                out.push(c);
                assert(out@ == before.push(c));
                assert(out@.map_values(|t: String| t@) =~= before.map_values(|t: String| t@).push(c@));
                assert(items@.take(i + 1) =~= items@.take(i as int).push(items@[i as int]));
                assert(items@.take(i + 1).map_values(|x: ParamValue| value_text(x)) =~= items@.take(
                    i as int,
                ).map_values(|x: ParamValue| value_text(x)).push(value_text(items@[i as int])));
            },
            _ => {
                assert(false);
            },
        }
        i += 1;
    }
    assert(items@.take(n as int) =~= items@);
    out
}

/// Whether the field `key` can be read as `kind`.
pub open spec fn field_ok(fields: Seq<ParamField>, key: Seq<char>, kind: FieldKind) -> bool {
    match kind {
        FieldKind::Required => lookup(fields, key) matches Some(ParamValue::Text(_)),
        FieldKind::TextOrEmpty => match lookup(fields, key) {
            None => true,
            Some(ParamValue::Text(_)) => true,
            _ => false,
        },
        FieldKind::OptionalText => match lookup(fields, key) {
            None => true,
            Some(ParamValue::Null) => true,
            Some(ParamValue::Text(_)) => true,
            _ => false,
        },
        FieldKind::Flag => match lookup(fields, key) {
            None => true,
            Some(ParamValue::Bool(_)) => true,
            _ => false,
        },
        FieldKind::OptionalFlag => match lookup(fields, key) {
            None => true,
            Some(ParamValue::Null) => true,
            Some(ParamValue::Bool(_)) => true,
            _ => false,
        },
        FieldKind::TextList => match lookup(fields, key) {
            None => true,
            Some(ParamValue::TextList(_)) => true,
            Some(ParamValue::List(items)) => all_text(items@),
            _ => false,
        },
    }
}

/// The text in field `key`, or the empty text.
pub open spec fn text_of(fields: Seq<ParamField>, key: Seq<char>) -> Seq<char> {
    match lookup(fields, key) {
        Some(ParamValue::Text(s)) => s@,
        _ => Seq::empty(),
    }
}

/// The text in field `key`, if it holds one.
pub open spec fn opt_text_of(fields: Seq<ParamField>, key: Seq<char>) -> Option<Seq<char>> {
    match lookup(fields, key) {
        Some(ParamValue::Text(s)) => Some(s@),
        _ => None,
    }
}

/// The boolean in field `key`, or false.
pub open spec fn flag_of(fields: Seq<ParamField>, key: Seq<char>) -> bool {
    match lookup(fields, key) {
        Some(ParamValue::Bool(b)) => b,
        _ => false,
    }
}

/// The boolean in field `key`, if it holds one.
pub open spec fn opt_flag_of(fields: Seq<ParamField>, key: Seq<char>) -> Option<bool> {
    match lookup(fields, key) {
        Some(ParamValue::Bool(b)) => Some(b),
        _ => None,
    }
}

/// The texts in list field `key`, or none.
pub open spec fn list_of(fields: Seq<ParamField>, key: Seq<char>) -> Seq<Seq<char>> {
    match lookup(fields, key) {
        Some(ParamValue::TextList(v)) => v@.map_values(|t: String| t@),
        Some(ParamValue::List(items)) => if all_text(items@) {
            items@.map_values(|x: ParamValue| value_text(x))
        } else {
            Seq::empty()
        },
        _ => Seq::empty(),
    }
}

/// The first field named `key`.
pub fn find_field<'a>(fields: &'a Vec<ParamField>, key: &str) -> (r: Option<&'a ParamValue>)
    ensures
        r matches Some(v) ==> lookup(fields@, key@) == Some(*v),
        r is None ==> lookup(fields@, key@) is None,
{
    let n = fields.len();
    let mut i: usize = 0;
    assert(fields@.skip(0) =~= fields@);
    while i < n
        invariant
            n == fields@.len(),
            i <= n,
            lookup(fields@, key@) == lookup(fields@.skip(i as int), key@),
        decreases n - i,
    {
        assert(fields@.skip(i as int)[0] == fields@[i as int]);
        assert(fields@.skip(i as int).drop_first() =~= fields@.skip(i + 1));
        if crate::text::text_eq(fields[i].key.as_str(), key) {
            return Some(&fields[i].value);
        }
        i += 1;
    }
    None
}

/// The text in field `key`, or the empty text.
pub fn get_text(fields: &Vec<ParamField>, key: &str) -> (r: String)
    ensures
        r@ == text_of(fields@, key@),
{
    match find_field(fields, key) {
        Some(ParamValue::Text(s)) => s.clone(),
        _ => String::new(),
    }
}

/// The text in field `key`, if it holds one.
pub fn get_opt_text(fields: &Vec<ParamField>, key: &str) -> (r: Option<String>)
    ensures
        r matches Some(s) ==> opt_text_of(fields@, key@) == Some(s@),
        r is None ==> opt_text_of(fields@, key@) is None,
{
    match find_field(fields, key) {
        Some(ParamValue::Text(s)) => Some(s.clone()),
        _ => None,
    }
}

/// The boolean in field `key`, or false.
pub fn get_flag(fields: &Vec<ParamField>, key: &str) -> (r: bool)
    ensures
        r == flag_of(fields@, key@),
{
    match find_field(fields, key) {
        Some(ParamValue::Bool(b)) => *b,
        _ => false,
    }
}

/// The boolean in field `key`, if it holds one.
pub fn get_opt_flag(fields: &Vec<ParamField>, key: &str) -> (r: Option<bool>)
    ensures
        r == opt_flag_of(fields@, key@),
{
    match find_field(fields, key) {
        Some(ParamValue::Bool(b)) => Some(*b),
        _ => None,
    }
}

/// The texts in list field `key`, or none.
pub fn get_list(fields: &Vec<ParamField>, key: &str) -> (r: Vec<String>)
    ensures
        r@.map_values(|t: String| t@) == list_of(fields@, key@),
{
    match find_field(fields, key) {
        Some(ParamValue::List(items)) => {
            if texts_only(items) {
                list_texts(items)
            } else {
                let r: Vec<String> = Vec::new();
                assert(r@.map_values(|t: String| t@) =~= Seq::<Seq<char>>::empty());
                r
            }
        },
        Some(ParamValue::TextList(v)) => {
            let r = v.clone();
            assert(r@.map_values(|t: String| t@) =~= v@.map_values(|t: String| t@)) by {
                assert forall|i: int| 0 <= i < r@.len() implies r@[i]@ == v@[i]@ by {
                    assert(cloned::<String>(v@[i], r@[i]));
                }
            }
            r
        },
        _ => {
            let r: Vec<String> = Vec::new();
            assert(r@.map_values(|t: String| t@) =~= Seq::<Seq<char>>::empty());
            r
        },
    }
}

/// The fields of a rule's parameters.
pub fn rule_fields(p: &Params) -> (r: Option<&Vec<ParamField>>)
    ensures
        r matches Some(v) ==> p == Params::Object(*v),
        r is None ==> p is NotObject,
{
    match p {
        Params::Object(v) => Some(v),
        Params::NotObject(_) => None,
    }
}

/// The text in field `key` of a rule's parameters, or the empty text.
pub open spec fn rule_text(r: CachedRule, key: Seq<char>) -> Seq<char> {
    text_of(fields_of(r.params), key)
}

/// The text in field `key` of a rule's parameters, if it holds one.
pub open spec fn rule_opt_text(r: CachedRule, key: Seq<char>) -> Option<Seq<char>> {
    opt_text_of(fields_of(r.params), key)
}

/// The boolean in field `key` of a rule's parameters, or false.
pub open spec fn rule_flag(r: CachedRule, key: Seq<char>) -> bool {
    flag_of(fields_of(r.params), key)
}

/// The boolean in field `key` of a rule's parameters, if it holds one.
pub open spec fn rule_opt_flag(r: CachedRule, key: Seq<char>) -> Option<bool> {
    opt_flag_of(fields_of(r.params), key)
}

/// The texts in list field `key` of a rule's parameters.
pub open spec fn rule_list(r: CachedRule, key: Seq<char>) -> Seq<Seq<char>> {
    list_of(fields_of(r.params), key)
}

/// The fields of a rule's parameters, or none.
fn fields_or_none(r: &CachedRule) -> (f: Vec<ParamField>)
    requires
        r.params is NotObject,
    ensures
        f@ == fields_of(r.params),
{
    let f: Vec<ParamField> = Vec::new();
    assert(f@ =~= fields_of(r.params));
    f
}

/// The text in field `key` of a rule's parameters, or the empty text.
pub fn rule_get_text(r: &CachedRule, key: &str) -> (s: String)
    ensures
        s@ == rule_text(*r, key@),
{
    match &r.params {
        Params::Object(f) => get_text(f, key),
        Params::NotObject(_) => get_text(&fields_or_none(r), key),
    }
}

/// The text in field `key` of a rule's parameters, if it holds one.
pub fn rule_get_opt_text(r: &CachedRule, key: &str) -> (s: Option<String>)
    ensures
        s matches Some(t) ==> rule_opt_text(*r, key@) == Some(t@),
        s is None ==> rule_opt_text(*r, key@) is None,
{
    match &r.params {
        Params::Object(f) => get_opt_text(f, key),
        Params::NotObject(_) => get_opt_text(&fields_or_none(r), key),
    }
}

/// The boolean in field `key` of a rule's parameters, or false.
pub fn rule_get_flag(r: &CachedRule, key: &str) -> (b: bool)
    ensures
        b == rule_flag(*r, key@),
{
    match &r.params {
        Params::Object(f) => get_flag(f, key),
        Params::NotObject(_) => get_flag(&fields_or_none(r), key),
    }
}

/// The boolean in field `key` of a rule's parameters, if it holds one.
pub fn rule_get_opt_flag(r: &CachedRule, key: &str) -> (b: Option<bool>)
    ensures
        b == rule_opt_flag(*r, key@),
{
    match &r.params {
        Params::Object(f) => get_opt_flag(f, key),
        Params::NotObject(_) => get_opt_flag(&fields_or_none(r), key),
    }
}

/// The texts in list field `key` of a rule's parameters.
pub fn rule_get_list(r: &CachedRule, key: &str) -> (v: Vec<String>)
    ensures
        v@.map_values(|t: String| t@) == rule_list(*r, key@),
{
    match &r.params {
        Params::Object(f) => get_list(f, key),
        Params::NotObject(_) => get_list(&fields_or_none(r), key),
    }
}

/// An owned copy of a text, for building rule fields.
pub fn text_field(key: &str, value: &str) -> (r: ParamField)
    ensures
        r.key@ == key@,
        r.value matches ParamValue::Text(s) && s@ == value@,
{
    ParamField { key: owned(key), value: ParamValue::Text(owned(value)) }
}

} // verus!
