//! Reading a record out of rule parameters: which fields a record has and how
//! each is read, and the first reason a parameter object cannot be read as
//! that record.
//!
//! The fields of the object are taken in their order: a field the record
//! knows must appear once and hold a value of its kind; fields the record does
//! not know are passed over. After that, the first required field of the
//! record (in its own order) that is absent is reported.
use vstd::prelude::*;
use crate::engine::{first_index, is_first};
use crate::params::{FieldKind, ParamField, ParamValue, Params, all_text, field_ok, fields_of, find_field, lookup};
use crate::text::{concat2, concat3, owned, text_eq};

verus! {

/// The fields of a record and how each is read, in the record's order.
pub type Schema = Seq<(Seq<char>, FieldKind)>;

/// The schema held by a list of field names and kinds.
pub open spec fn schema_view(v: Seq<(&str, FieldKind)>) -> Schema {
    v.map_values(|e: (&str, FieldKind)| (e.0@, e.1))
}

/// What a text looks like written as a quoted, escaped string (Rust's `{:?}`).
pub uninterp spec fn quoted(s: Seq<char>) -> Seq<char>;

/// Calls `<str as Debug>::fmt` through `format!("{:?}", ..)`: the text in
/// double quotes with quotes, backslashes and unprintable characters escaped.
/// The contract names the result and claims only that it depends on the text
/// alone.
#[verifier::external_body]
fn debug_quote(s: &str) -> (r: String)
    ensures
        r@ == quoted(s@),
{
    format!("{:?}", s)
}

/// How a value is described when it is not what was asked for.
pub open spec fn unexpected(v: ParamValue) -> Seq<char> {
    match v {
        ParamValue::Null => "null"@,
        ParamValue::Bool(b) => if b {
            "boolean `true`"@
        } else {
            "boolean `false`"@
        },
        ParamValue::Number { integer, text } => if integer {
            "integer `"@ + text@ + "`"@
        } else {
            "floating point `"@ + text@ + "`"@
        },
        ParamValue::Text(s) => "string "@ + quoted(s@),
        ParamValue::TextList(_) => "sequence"@,
        ParamValue::List(_) => "sequence"@,
        ParamValue::Object => "map"@,
    }
}

/// The message for a value of the wrong type.
pub open spec fn invalid_type(v: ParamValue, expected: Seq<char>) -> Seq<char> {
    "invalid type: "@ + unexpected(v) + ", expected "@ + expected
}

/// Which items of a list are not strings.
pub open spec fn non_text_flags(items: Seq<ParamValue>) -> Seq<bool> {
    Seq::new(items.len(), |i: int| !(items[i] is Text))
}

/// The first item of a list that is not a string.
pub open spec fn first_non_text(items: Seq<ParamValue>) -> Option<ParamValue> {
    match first_index(non_text_flags(items)) {
        Some(i) => Some(items[i]),
        None => None,
    }
}

/// Why a value cannot be read as a field of this kind, if it cannot.
pub open spec fn value_error(kind: FieldKind, v: ParamValue) -> Option<Seq<char>> {
    match kind {
        FieldKind::Required | FieldKind::TextOrEmpty => if v is Text {
            None
        } else {
            Some(invalid_type(v, "a string"@))
        },
        FieldKind::OptionalText => if v is Text || v is Null {
            None
        } else {
            Some(invalid_type(v, "a string"@))
        },
        FieldKind::Flag => if v is Bool {
            None
        } else {
            Some(invalid_type(v, "a boolean"@))
        },
        FieldKind::OptionalFlag => if v is Bool || v is Null {
            None
        } else {
            Some(invalid_type(v, "a boolean"@))
        },
        FieldKind::TextList => match v {
            ParamValue::TextList(_) => None,
            ParamValue::List(items) => match first_non_text(items@) {
                Some(x) => Some(invalid_type(x, "a string"@)),
                None => None,
            },
            _ => Some(invalid_type(v, "a sequence"@)),
        },
    }
}

/// The record has a field of this name.
pub open spec fn key_known(s: Schema, k: Seq<char>) -> bool {
    exists|i: int| 0 <= i < s.len() && s[i].0 == k
}

/// Field `j` repeats the name of an earlier field.
pub open spec fn seen_before(f: Seq<ParamField>, j: int) -> bool {
    exists|j2: int| 0 <= j2 < j && f[j2].key@ == f[j].key@
}

/// Why a value cannot be read as the record's field `k`: the first field of
/// that name whose kind refuses it.
pub open spec fn kind_error(s: Schema, k: Seq<char>, v: ParamValue) -> Option<Seq<char>> {
    match first_index(kind_flags(s, k, v)) {
        Some(i) => value_error(s[i].1, v),
        None => None,
    }
}

/// The record's fields of name `k` whose kind refuses the value.
pub open spec fn kind_flags(s: Schema, k: Seq<char>, v: ParamValue) -> Seq<bool> {
    Seq::new(s.len(), |i: int| s[i].0 == k && value_error(s[i].1, v) is Some)
}

/// Why field `j` of the object cannot be read: a known field given twice, or
/// given a value of the wrong kind.
pub open spec fn entry_error(s: Schema, f: Seq<ParamField>, j: int) -> Option<Seq<char>> {
    if !key_known(s, f[j].key@) {
        None
    } else if seen_before(f, j) {
        Some("duplicate field `"@ + f[j].key@ + "`"@)
    } else {
        kind_error(s, f[j].key@, f[j].value)
    }
}

/// Field `i` of the record is required and absent.
pub open spec fn missing_error(s: Schema, f: Seq<ParamField>, i: int) -> Option<Seq<char>> {
    if s[i].1 == FieldKind::Required && lookup(f, s[i].0) is None {
        Some("missing field `"@ + s[i].0 + "`"@)
    } else {
        None
    }
}

/// Which entries of a sequence of options hold a value.
pub open spec fn some_flags<A>(x: Seq<Option<A>>) -> Seq<bool> {
    Seq::new(x.len(), |i: int| x[i] is Some)
}

/// The first value present in a sequence of options.
pub open spec fn first_some<A>(x: Seq<Option<A>>) -> Option<A> {
    match first_index(some_flags(x)) {
        Some(i) => x[i],
        None => None,
    }
}

/// The first reason an object cannot be read as the record: a bad field, in
/// the object's order, or else a missing one, in the record's order.
pub open spec fn object_error(s: Schema, f: Seq<ParamField>) -> Option<Seq<char>> {
    match first_some(entry_errors(s, f)) {
        Some(e) => Some(e),
        None => first_some(missing_errors(s, f)),
    }
}

/// Why each field of the object cannot be read, if it cannot.
pub open spec fn entry_errors(s: Schema, f: Seq<ParamField>) -> Seq<Option<Seq<char>>> {
    Seq::new(f.len(), |j: int| entry_error(s, f, j))
}

/// Which required fields of the record are absent.
pub open spec fn missing_errors(s: Schema, f: Seq<ParamField>) -> Seq<Option<Seq<char>>> {
    Seq::new(s.len(), |i: int| missing_error(s, f, i))
}

/// The first reason parameters cannot be read as the record `name`; none when
/// they can.
pub open spec fn params_error(name: Seq<char>, s: Schema, p: Params) -> Option<Seq<char>> {
    match p {
        Params::Object(f) => object_error(s, f@),
        Params::NotObject(v) => Some(invalid_type(v, "struct "@ + name)),
    }
}

/// The reason as text (empty when there is none).
pub open spec fn params_error_text(name: Seq<char>, s: Schema, p: Params) -> Seq<char> {
    match params_error(name, s, p) {
        Some(e) => e,
        None => Seq::empty(),
    }
}

/// No field the record knows appears twice.
pub open spec fn no_duplicate_known(f: Seq<ParamField>, s: Schema) -> bool {
    forall|j: int| 0 <= j < f.len() && key_known(s, #[trigger] f[j].key@) ==> !seen_before(f, j)
}

/// The parameters can be read as the record: an object whose known fields
/// appear once and each field of the record is readable as its kind.
pub open spec fn schema_ok(s: Schema, p: Params) -> bool {
    &&& p is Object
    &&& forall|i: int| 0 <= i < s.len() ==> field_ok(fields_of(p), #[trigger] s[i].0, s[i].1)
    &&& no_duplicate_known(fields_of(p), s)
}

// --- Lemmas ---
/// The first flagged position is the one the definition picks.
pub proof fn lemma_first_index_is(x: Seq<bool>, j: int)
    requires
        is_first(x, j),
    ensures
        first_index(x) == Some(j),
{
    let k = choose|k: int| is_first(x, k);
    assert(is_first(x, k));
    if k < j {
        assert(!x[k]);
    } else if j < k {
        assert(!x[j]);
    }
}

/// With no flag set there is no first flagged position.
pub proof fn lemma_first_index_none(x: Seq<bool>)
    requires
        forall|i: int| 0 <= i < x.len() ==> !x[i],
    ensures
        first_index(x) is None,
{
}

/// A set flag means some first flagged position exists.
pub proof fn lemma_first_index_some(x: Seq<bool>, j: int)
    requires
        0 <= j < x.len(),
        x[j],
    ensures
        first_index(x) matches Some(k) && is_first(x, k) && k <= j,
    decreases j,
{
    if exists|q: int| 0 <= q < j && x[q] {
        let q = choose|q: int| 0 <= q < j && x[q];
        lemma_first_index_some(x, q);
    } else {
        assert(is_first(x, j));
        lemma_first_index_is(x, j);
    }
}

/// The first value present is `x[j]` when it is present and none before is.
pub proof fn lemma_first_some_is<A>(x: Seq<Option<A>>, j: int)
    requires
        0 <= j < x.len(),
        x[j] is Some,
        forall|i: int| 0 <= i < j ==> x[i] is None,
    ensures
        first_some(x) == x[j],
{
    let flags = some_flags(x);
    assert(is_first(flags, j));
    lemma_first_index_is(flags, j);
}

/// No value is present exactly when every entry is none.
pub proof fn lemma_first_some_none<A>(x: Seq<Option<A>>)
    ensures
        first_some(x) is None <==> forall|i: int| 0 <= i < x.len() ==> x[i] is None,
{
    let flags = some_flags(x);
    if exists|i: int| 0 <= i < x.len() && x[i] is Some {
        let i = choose|i: int| 0 <= i < x.len() && x[i] is Some;
        lemma_first_index_some(flags, i);
    }
}

/// The value the first field named `k` holds.
pub proof fn lemma_lookup_first(f: Seq<ParamField>, k: Seq<char>, j: int)
    requires
        0 <= j < f.len(),
        f[j].key@ == k,
        forall|j2: int| 0 <= j2 < j ==> f[j2].key@ != k,
    ensures
        lookup(f, k) == Some(f[j].value),
    decreases j,
{
    if j > 0 {
        lemma_lookup_first(f.drop_first(), k, j - 1);
    }
}

/// A field that is present is found at its first position.
pub proof fn lemma_lookup_some(f: Seq<ParamField>, k: Seq<char>)
    requires
        lookup(f, k) is Some,
    ensures
        exists|j: int|
            0 <= j < f.len() && f[j].key@ == k && lookup(f, k) == Some(f[j].value) && forall|j2: int|
                0 <= j2 < j ==> f[j2].key@ != k,
    decreases f.len(),
{
    if f[0].key@ == k {
        assert(0 < f.len() && f[0].key@ == k && lookup(f, k) == Some(f[0].value));
    } else {
        lemma_lookup_some(f.drop_first(), k);
        let j = choose|j: int|
            0 <= j < f.drop_first().len() && f.drop_first()[j].key@ == k && lookup(f.drop_first(), k) == Some(
                f.drop_first()[j].value,
            ) && forall|j2: int| 0 <= j2 < j ==> f.drop_first()[j2].key@ != k;
        assert forall|j2: int| 0 <= j2 < j + 1 implies f[j2].key@ != k by {
            if j2 > 0 {
                assert(f[j2] == f.drop_first()[j2 - 1]);
            }
        }
        assert(f[j + 1] == f.drop_first()[j]);
    }
}

/// A field absent from the object is found nowhere in it.
pub proof fn lemma_lookup_none(f: Seq<ParamField>, k: Seq<char>, j: int)
    requires
        lookup(f, k) is None,
        0 <= j < f.len(),
    ensures
        f[j].key@ != k,
    decreases f.len(),
{
    if j > 0 && f[0].key@ != k {
        lemma_lookup_none(f.drop_first(), k, j - 1);
    }
}

/// A field is readable as its kind exactly when it is present if required and
/// its value, if any, suits the kind.
pub proof fn lemma_field_ok(f: Seq<ParamField>, k: Seq<char>, kind: FieldKind)
    ensures
        field_ok(f, k, kind) <==> match lookup(f, k) {
            None => kind != FieldKind::Required,
            Some(v) => value_error(kind, v) is None,
        },
{
    match lookup(f, k) {
        Some(ParamValue::List(items)) => {
            let flags = non_text_flags(items@);
            if all_text(items@) {
                lemma_first_index_none(flags);
            } else {
                let i = choose|i: int| 0 <= i < items@.len() && !(items@[i] is Text);
                lemma_first_index_some(flags, i);
            }
        },
        _ => {},
    }
}

/// A schema reads an object exactly when it finds no reason to refuse it.
pub proof fn lemma_params_error_none(name: Seq<char>, s: Schema, p: Params)
    ensures
        params_error(name, s, p) is None <==> schema_ok(s, p),
{
    match p {
        Params::NotObject(_) => {},
        Params::Object(fv) => {
            let f = fv@;
            let ee = entry_errors(s, f);
            let me = missing_errors(s, f);
            lemma_first_some_none(ee);
            lemma_first_some_none(me);
            if schema_ok(s, p) {
                assert forall|j: int| 0 <= j < f.len() implies ee[j] is None by {
                    assert(ee[j] == entry_error(s, f, j));
                    if key_known(s, f[j].key@) {
                        assert(!seen_before(f, j));
                        let k = f[j].key@;
                        assert(forall|j2: int| 0 <= j2 < j ==> f[j2].key@ != k);
                        let flags = kind_flags(s, k, f[j].value);
                        assert forall|i: int| 0 <= i < s.len() implies !flags[i] by {
                            if s[i].0 == k {
                                lemma_lookup_first(f, k, j);
                                assert(field_ok(f, s[i].0, s[i].1));
                                lemma_field_ok(f, s[i].0, s[i].1);
                            }
                        }
                        lemma_first_index_none(flags);
                        assert(kind_error(s, k, f[j].value) is None);
                    }
                }
                assert forall|i: int| 0 <= i < s.len() implies me[i] is None by {
                    assert(me[i] == missing_error(s, f, i));
                    assert(field_ok(f, s[i].0, s[i].1));
                    lemma_field_ok(f, s[i].0, s[i].1);
                }
            }
            if params_error(name, s, p) is None {
                assert(forall|j: int| 0 <= j < f.len() ==> ee[j] is None);
                assert(forall|i: int| 0 <= i < s.len() ==> me[i] is None);
                assert forall|j: int| 0 <= j < f.len() && key_known(s, #[trigger] f[j].key@) implies !seen_before(
                    f,
                    j,
                ) by {
                    assert(ee[j] is None);
                }
                assert forall|i: int| 0 <= i < s.len() implies field_ok(f, #[trigger] s[i].0, s[i].1) by {
                    assert(me[i] is None);
                    lemma_field_ok(f, s[i].0, s[i].1);
                    let k = s[i].0;
                    if lookup(f, k) is Some {
                        lemma_lookup_some(f, k);
                        let j = choose|j: int|
                            0 <= j < f.len() && f[j].key@ == k && lookup(f, k) == Some(f[j].value) && forall|j2: int|
                                0 <= j2 < j ==> f[j2].key@ != k;
                        assert(key_known(s, f[j].key@));
                        assert(ee[j] is None);
                        assert(!seen_before(f, j));
                        let flags = kind_flags(s, k, f[j].value);
                        if value_error(s[i].1, f[j].value) is Some {
                            assert(flags[i]);
                            lemma_first_index_some(flags, i);
                            let q = first_index(flags)->0;
                            assert(flags[q]);
                        }
                    }
                }
            }
        },
    }
}

// --- Reading ---
/// The description of a value that is not what was asked for.
fn unexpected_text(v: &ParamValue) -> (r: String)
    ensures
        r@ == unexpected(*v),
{
    match v {
        ParamValue::Null => owned("null"),
        ParamValue::Bool(b) => if *b {
            owned("boolean `true`")
        } else {
            owned("boolean `false`")
        },
        ParamValue::Number { integer, text } => if *integer {
            concat3("integer `", text.as_str(), "`")
        } else {
            concat3("floating point `", text.as_str(), "`")
        },
        ParamValue::Text(s) => concat2("string ", debug_quote(s.as_str()).as_str()),
        ParamValue::TextList(_) => owned("sequence"),
        ParamValue::List(_) => owned("sequence"),
        ParamValue::Object => owned("map"),
    }
}

/// The message for a value of the wrong type.
fn invalid_type_text(v: &ParamValue, expected: &str) -> (r: String)
    ensures
        r@ == invalid_type(*v, expected@),
{
    let mut m = concat2("invalid type: ", unexpected_text(v).as_str());
    m.append(", expected ");
    m.append(expected);
    m
}

/// The first item of a list that is not a string.
fn first_non_text_item(items: &Vec<ParamValue>) -> (r: Option<&ParamValue>)
    ensures
        match first_non_text(items@) {
            Some(x) => r matches Some(y) && *y == x,
            None => r is None,
        },
{
    let ghost flags = non_text_flags(items@);
    let n = items.len();
    let mut i: usize = 0;
    while i < n
        invariant
            n == items@.len(),
            i <= n,
            flags == non_text_flags(items@),
            forall|j: int| 0 <= j < i ==> !flags[j],
        decreases n - i,
    {
        if !matches!(items[i], ParamValue::Text(_)) {
            proof {
                assert(is_first(flags, i as int));
                lemma_first_index_is(flags, i as int);
            }
            return Some(&items[i]);
        }
        i += 1;
    }
    proof {
        lemma_first_index_none(flags);
    }
    None
}

/// Why a value cannot be read as a field of this kind, if it cannot.
fn value_error_text(kind: FieldKind, v: &ParamValue) -> (r: Option<String>)
    ensures
        match value_error(kind, *v) {
            Some(e) => r matches Some(m) && m@ == e,
            None => r is None,
        },
{
    match kind {
        FieldKind::Required | FieldKind::TextOrEmpty => match v {
            ParamValue::Text(_) => None,
            _ => Some(invalid_type_text(v, "a string")),
        },
        FieldKind::OptionalText => match v {
            ParamValue::Text(_) => None,
            ParamValue::Null => None,
            _ => Some(invalid_type_text(v, "a string")),
        },
        FieldKind::Flag => match v {
            ParamValue::Bool(_) => None,
            _ => Some(invalid_type_text(v, "a boolean")),
        },
        FieldKind::OptionalFlag => match v {
            ParamValue::Bool(_) => None,
            ParamValue::Null => None,
            _ => Some(invalid_type_text(v, "a boolean")),
        },
        FieldKind::TextList => match v {
            ParamValue::TextList(_) => None,
            ParamValue::List(items) => match first_non_text_item(items) {
                Some(x) => Some(invalid_type_text(x, "a string")),
                None => None,
            },
            _ => Some(invalid_type_text(v, "a sequence")),
        },
    }
}

/// Whether the record has a field of this name.
fn known_key(s: &Vec<(&str, FieldKind)>, k: &str) -> (r: bool)
    ensures
        r == key_known(schema_view(s@), k@),
{
    let ghost sv = schema_view(s@);
    let n = s.len();
    let mut i: usize = 0;
    while i < n
        invariant
            n == s@.len(),
            i <= n,
            sv == schema_view(s@),
            forall|q: int| 0 <= q < i ==> sv[q].0 != k@,
        decreases n - i,
    {
        if text_eq(s[i].0, k) {
            assert(sv[i as int].0 == k@);
            return true;
        }
        i += 1;
    }
    false
}

/// Whether field `j` repeats an earlier field's name.
fn repeats_earlier(f: &Vec<ParamField>, j: usize) -> (r: bool)
    requires
        j < f@.len(),
    ensures
        r == seen_before(f@, j as int),
{
    let mut q: usize = 0;
    while q < j
        invariant
            j < f@.len(),
            q <= j,
            forall|j2: int| 0 <= j2 < q ==> f@[j2].key@ != f@[j as int].key@,
        decreases j - q,
    {
        if text_eq(f[q].key.as_str(), f[j].key.as_str()) {
            return true;
        }
        q += 1;
    }
    false
}

/// Why a value cannot be read as the record's field `k`.
fn kind_error_text(s: &Vec<(&str, FieldKind)>, k: &str, v: &ParamValue) -> (r: Option<String>)
    ensures
        match kind_error(schema_view(s@), k@, *v) {
            Some(e) => r matches Some(m) && m@ == e,
            None => r is None,
        },
{
    let ghost sv = schema_view(s@);
    let ghost flags = kind_flags(sv, k@, *v);
    let n = s.len();
    let mut i: usize = 0;
    while i < n
        invariant
            n == s@.len(),
            i <= n,
            sv == schema_view(s@),
            flags == kind_flags(sv, k@, *v),
            forall|q: int| 0 <= q < i ==> !flags[q],
        decreases n - i,
    {
        if text_eq(s[i].0, k) {
            match value_error_text(s[i].1, v) {
                Some(m) => {
                    proof {
                        assert(flags[i as int]);
                        assert(is_first(flags, i as int));
                        lemma_first_index_is(flags, i as int);
                    }
                    return Some(m);
                },
                None => {},
            }
        }
        i += 1;
    }
    proof {
        lemma_first_index_none(flags);
    }
    None
}

/// Reads parameters as the record `name` with the given fields: `Ok` when they
/// can be read, else the first reason they cannot.
pub fn check_params(name: &str, s: &Vec<(&str, FieldKind)>, p: &Params) -> (r: Result<(), String>)
    ensures
        r is Ok <==> params_error(name@, schema_view(s@), *p) is None,
        r matches Err(m) ==> params_error(name@, schema_view(s@), *p) == Some(m@),
{
    let ghost sv = schema_view(s@);
    match p {
        Params::NotObject(v) => {
            let expected = concat2("struct ", name);
            Err(invalid_type_text(v, expected.as_str()))
        },
        Params::Object(f) => {
            let ghost fv = f@;
            let ghost ee = entry_errors(sv, fv);
            let n = f.len();
            let mut j: usize = 0;
            while j < n
                invariant
                    n == f@.len(),
                    j <= n,
                    fv == f@,
                    *p == Params::Object(*f),
                    sv == schema_view(s@),
                    ee == entry_errors(sv, fv),
                    forall|q: int| 0 <= q < j ==> ee[q] is None,
                decreases n - j,
            {
                if known_key(s, f[j].key.as_str()) {
                    if repeats_earlier(f, j) {
                        let m = concat3("duplicate field `", f[j].key.as_str(), "`");
                        proof {
                            assert(ee[j as int] == entry_error(sv, fv, j as int));
                            assert(ee[j as int] == Some(m@));
                            lemma_first_some_is(ee, j as int);
                        }
                        return Err(m);
                    }
                    match kind_error_text(s, f[j].key.as_str(), &f[j].value) {
                        Some(m) => {
                            proof {
                                lemma_first_some_is(ee, j as int);
                            }
                            return Err(m);
                        },
                        None => {},
                    }
                }
                assert(ee[j as int] is None);
                j += 1;
            }
            proof {
                lemma_first_some_none(ee);
            }
            let ghost me = missing_errors(sv, fv);
            let k = s.len();
            let mut i: usize = 0;
            while i < k
                invariant
                    k == s@.len(),
                    i <= k,
                    fv == f@,
                    *p == Params::Object(*f),
                    sv == schema_view(s@),
                    me == missing_errors(sv, fv),
                    first_some(ee) is None,
                    ee == entry_errors(sv, fv),
                    forall|q: int| 0 <= q < i ==> me[q] is None,
                decreases k - i,
            {
                let (key, kind) = s[i];
                assert(sv[i as int] == (key@, kind));
                if kind == FieldKind::Required && find_field(f, key).is_none() {
                    let m = concat3("missing field `", key, "`");
                    proof {
                        assert(me[i as int] == missing_error(sv, fv, i as int));
                        assert(me[i as int] == Some(m@));
                        lemma_first_some_is(me, i as int);
                        assert(object_error(sv, fv) == first_some(me));
                    }
                    return Err(m);
                }
                i += 1;
            }
            proof {
                lemma_first_some_none(me);
            }
            Ok(())
        },
    }
}

} // verus!
