//! The shapes of rule parameters: which fields each kind of rule must or may
//! carry, and how each is read.
use vstd::prelude::*;
use crate::params::{FieldKind, Params, field_ok, fields_of};
use crate::schema::{Schema, check_params, lemma_params_error_none, no_duplicate_known, params_error_text,
    schema_ok, schema_view};

verus! {

/// The fields of the record `SandhiParams` and how each is read, in its order.
pub open spec fn sandhi_schema() -> Schema {
    seq![
        ("first"@, FieldKind::Required),
        ("second"@, FieldKind::Required),
        ("result"@, FieldKind::Required),
        ("sutra"@, FieldKind::TextOrEmpty),
        ("sutra_position"@, FieldKind::TextOrEmpty),
        ("rule_type"@, FieldKind::TextOrEmpty),
        ("condition_pratyaya"@, FieldKind::OptionalText),
    ]
}

/// The fields of the record `SandhiParams`, for reading.
fn sandhi_fields() -> (r: Vec<(&'static str, FieldKind)>)
    ensures
        schema_view(r@) == sandhi_schema(),
{
    let r = vec![
        ("first", FieldKind::Required),
        ("second", FieldKind::Required),
        ("result", FieldKind::Required),
        ("sutra", FieldKind::TextOrEmpty),
        ("sutra_position", FieldKind::TextOrEmpty),
        ("rule_type", FieldKind::TextOrEmpty),
        ("condition_pratyaya", FieldKind::OptionalText),
    ];
    assert(schema_view(r@) =~= sandhi_schema());
    r
}

/// A sandhi rule: first, second, result; optional sūtra data and pratyaya condition.
pub open spec fn sandhi_shape(p: Params) -> bool {
    &&& p is Object
    &&& field_ok(fields_of(p), "first"@, FieldKind::Required)
    &&& field_ok(fields_of(p), "second"@, FieldKind::Required)
    &&& field_ok(fields_of(p), "result"@, FieldKind::Required)
    &&& field_ok(fields_of(p), "sutra"@, FieldKind::TextOrEmpty)
    &&& field_ok(fields_of(p), "sutra_position"@, FieldKind::TextOrEmpty)
    &&& field_ok(fields_of(p), "rule_type"@, FieldKind::TextOrEmpty)
    &&& field_ok(fields_of(p), "condition_pratyaya"@, FieldKind::OptionalText)
    &&& no_duplicate_known(fields_of(p), sandhi_schema())
}

/// The first reason parameters cannot be read as `SandhiParams` (empty when there is none).
pub open spec fn sandhi_error(p: Params) -> Seq<char> {
    params_error_text("SandhiParams"@, sandhi_schema(), p)
}

/// The shape is the record's schema read in full.
proof fn lemma_sandhi_shape(p: Params)
    ensures
        sandhi_shape(p) == schema_ok(sandhi_schema(), p),
{
    let s = sandhi_schema();
    if schema_ok(s, p) {
        assert(field_ok(fields_of(p), s[0].0, s[0].1));
        assert(field_ok(fields_of(p), s[1].0, s[1].1));
        assert(field_ok(fields_of(p), s[2].0, s[2].1));
        assert(field_ok(fields_of(p), s[3].0, s[3].1));
        assert(field_ok(fields_of(p), s[4].0, s[4].1));
        assert(field_ok(fields_of(p), s[5].0, s[5].1));
        assert(field_ok(fields_of(p), s[6].0, s[6].1));
    }
    if sandhi_shape(p) {
        assert forall|i: int| 0 <= i < s.len() implies field_ok(fields_of(p), #[trigger] s[i].0, s[i].1) by {
            if i == 0 {
                assert(field_ok(fields_of(p), "first"@, FieldKind::Required));
            } else if i == 1 {
                assert(field_ok(fields_of(p), "second"@, FieldKind::Required));
            } else if i == 2 {
                assert(field_ok(fields_of(p), "result"@, FieldKind::Required));
            } else if i == 3 {
                assert(field_ok(fields_of(p), "sutra"@, FieldKind::TextOrEmpty));
            } else if i == 4 {
                assert(field_ok(fields_of(p), "sutra_position"@, FieldKind::TextOrEmpty));
            } else if i == 5 {
                assert(field_ok(fields_of(p), "rule_type"@, FieldKind::TextOrEmpty));
            } else if i == 6 {
                assert(field_ok(fields_of(p), "condition_pratyaya"@, FieldKind::OptionalText));
            }
        }
    }
}

/// Checks that parameters have the shape of a sandhi rule: first, second, result; optional sūtra data and pratyaya condition.
pub fn check_sandhi_shape(p: &Params) -> (r: Result<(), String>)
    ensures
        r is Ok == sandhi_shape(*p),
        r matches Err(m) ==> m@ == sandhi_error(*p),
{
    proof {
        lemma_sandhi_shape(*p);
        lemma_params_error_none("SandhiParams"@, sandhi_schema(), *p);
    }
    check_params("SandhiParams", &sandhi_fields(), p)
}

/// The fields of the record `SupSuffix` and how each is read, in its order.
pub open spec fn sup_schema() -> Schema {
    seq![
        ("stem_class"@, FieldKind::Required),
        ("vibhakti"@, FieldKind::Required),
        ("vacana"@, FieldKind::Required),
        ("pratyaya"@, FieldKind::Required),
        ("suffix"@, FieldKind::Required),
        ("markers"@, FieldKind::TextList),
        ("sutra"@, FieldKind::TextOrEmpty),
        ("sutra_position"@, FieldKind::TextOrEmpty),
    ]
}

/// The fields of the record `SupSuffix`, for reading.
fn sup_fields() -> (r: Vec<(&'static str, FieldKind)>)
    ensures
        schema_view(r@) == sup_schema(),
{
    let r = vec![
        ("stem_class", FieldKind::Required),
        ("vibhakti", FieldKind::Required),
        ("vacana", FieldKind::Required),
        ("pratyaya", FieldKind::Required),
        ("suffix", FieldKind::Required),
        ("markers", FieldKind::TextList),
        ("sutra", FieldKind::TextOrEmpty),
        ("sutra_position", FieldKind::TextOrEmpty),
    ];
    assert(schema_view(r@) =~= sup_schema());
    r
}

/// A sUP suffix entry as the engine reads it.
pub open spec fn sup_shape(p: Params) -> bool {
    &&& p is Object
    &&& field_ok(fields_of(p), "stem_class"@, FieldKind::Required)
    &&& field_ok(fields_of(p), "vibhakti"@, FieldKind::Required)
    &&& field_ok(fields_of(p), "vacana"@, FieldKind::Required)
    &&& field_ok(fields_of(p), "pratyaya"@, FieldKind::Required)
    &&& field_ok(fields_of(p), "suffix"@, FieldKind::Required)
    &&& field_ok(fields_of(p), "markers"@, FieldKind::TextList)
    &&& field_ok(fields_of(p), "sutra"@, FieldKind::TextOrEmpty)
    &&& field_ok(fields_of(p), "sutra_position"@, FieldKind::TextOrEmpty)
    &&& no_duplicate_known(fields_of(p), sup_schema())
}

/// The first reason parameters cannot be read as `SupSuffix` (empty when there is none).
pub open spec fn sup_error(p: Params) -> Seq<char> {
    params_error_text("SupSuffix"@, sup_schema(), p)
}

/// The shape is the record's schema read in full.
proof fn lemma_sup_shape(p: Params)
    ensures
        sup_shape(p) == schema_ok(sup_schema(), p),
{
    let s = sup_schema();
    if schema_ok(s, p) {
        assert(field_ok(fields_of(p), s[0].0, s[0].1));
        assert(field_ok(fields_of(p), s[1].0, s[1].1));
        assert(field_ok(fields_of(p), s[2].0, s[2].1));
        assert(field_ok(fields_of(p), s[3].0, s[3].1));
        assert(field_ok(fields_of(p), s[4].0, s[4].1));
        assert(field_ok(fields_of(p), s[5].0, s[5].1));
        assert(field_ok(fields_of(p), s[6].0, s[6].1));
        assert(field_ok(fields_of(p), s[7].0, s[7].1));
    }
    if sup_shape(p) {
        assert forall|i: int| 0 <= i < s.len() implies field_ok(fields_of(p), #[trigger] s[i].0, s[i].1) by {
            if i == 0 {
                assert(field_ok(fields_of(p), "stem_class"@, FieldKind::Required));
            } else if i == 1 {
                assert(field_ok(fields_of(p), "vibhakti"@, FieldKind::Required));
            } else if i == 2 {
                assert(field_ok(fields_of(p), "vacana"@, FieldKind::Required));
            } else if i == 3 {
                assert(field_ok(fields_of(p), "pratyaya"@, FieldKind::Required));
            } else if i == 4 {
                assert(field_ok(fields_of(p), "suffix"@, FieldKind::Required));
            } else if i == 5 {
                assert(field_ok(fields_of(p), "markers"@, FieldKind::TextList));
            } else if i == 6 {
                assert(field_ok(fields_of(p), "sutra"@, FieldKind::TextOrEmpty));
            } else if i == 7 {
                assert(field_ok(fields_of(p), "sutra_position"@, FieldKind::TextOrEmpty));
            }
        }
    }
}

/// Checks that parameters have the shape of a sUP suffix entry as the engine reads it.
pub fn check_sup_shape(p: &Params) -> (r: Result<(), String>)
    ensures
        r is Ok == sup_shape(*p),
        r matches Err(m) ==> m@ == sup_error(*p),
{
    proof {
        lemma_sup_shape(*p);
        lemma_params_error_none("SupSuffix"@, sup_schema(), *p);
    }
    check_params("SupSuffix", &sup_fields(), p)
}

/// The fields of the record `SupParams` and how each is read, in its order.
pub open spec fn sup_check_schema() -> Schema {
    seq![
        ("stem_class"@, FieldKind::Required),
        ("vibhakti"@, FieldKind::Required),
        ("vacana"@, FieldKind::Required),
        ("pratyaya"@, FieldKind::Required),
        ("suffix"@, FieldKind::Required),
        ("sutra"@, FieldKind::TextOrEmpty),
        ("sutra_position"@, FieldKind::TextOrEmpty),
    ]
}

/// The fields of the record `SupParams`, for reading.
fn sup_check_fields() -> (r: Vec<(&'static str, FieldKind)>)
    ensures
        schema_view(r@) == sup_check_schema(),
{
    let r = vec![
        ("stem_class", FieldKind::Required),
        ("vibhakti", FieldKind::Required),
        ("vacana", FieldKind::Required),
        ("pratyaya", FieldKind::Required),
        ("suffix", FieldKind::Required),
        ("sutra", FieldKind::TextOrEmpty),
        ("sutra_position", FieldKind::TextOrEmpty),
    ];
    assert(schema_view(r@) =~= sup_check_schema());
    r
}

/// A sUP suffix entry as the consistency checker reads it.
pub open spec fn sup_check_shape(p: Params) -> bool {
    &&& p is Object
    &&& field_ok(fields_of(p), "stem_class"@, FieldKind::Required)
    &&& field_ok(fields_of(p), "vibhakti"@, FieldKind::Required)
    &&& field_ok(fields_of(p), "vacana"@, FieldKind::Required)
    &&& field_ok(fields_of(p), "pratyaya"@, FieldKind::Required)
    &&& field_ok(fields_of(p), "suffix"@, FieldKind::Required)
    &&& field_ok(fields_of(p), "sutra"@, FieldKind::TextOrEmpty)
    &&& field_ok(fields_of(p), "sutra_position"@, FieldKind::TextOrEmpty)
    &&& no_duplicate_known(fields_of(p), sup_check_schema())
}

/// The first reason parameters cannot be read as `SupParams` (empty when there is none).
pub open spec fn sup_check_error(p: Params) -> Seq<char> {
    params_error_text("SupParams"@, sup_check_schema(), p)
}

/// The shape is the record's schema read in full.
proof fn lemma_sup_check_shape(p: Params)
    ensures
        sup_check_shape(p) == schema_ok(sup_check_schema(), p),
{
    let s = sup_check_schema();
    if schema_ok(s, p) {
        assert(field_ok(fields_of(p), s[0].0, s[0].1));
        assert(field_ok(fields_of(p), s[1].0, s[1].1));
        assert(field_ok(fields_of(p), s[2].0, s[2].1));
        assert(field_ok(fields_of(p), s[3].0, s[3].1));
        assert(field_ok(fields_of(p), s[4].0, s[4].1));
        assert(field_ok(fields_of(p), s[5].0, s[5].1));
        assert(field_ok(fields_of(p), s[6].0, s[6].1));
    }
    if sup_check_shape(p) {
        assert forall|i: int| 0 <= i < s.len() implies field_ok(fields_of(p), #[trigger] s[i].0, s[i].1) by {
            if i == 0 {
                assert(field_ok(fields_of(p), "stem_class"@, FieldKind::Required));
            } else if i == 1 {
                assert(field_ok(fields_of(p), "vibhakti"@, FieldKind::Required));
            } else if i == 2 {
                assert(field_ok(fields_of(p), "vacana"@, FieldKind::Required));
            } else if i == 3 {
                assert(field_ok(fields_of(p), "pratyaya"@, FieldKind::Required));
            } else if i == 4 {
                assert(field_ok(fields_of(p), "suffix"@, FieldKind::Required));
            } else if i == 5 {
                assert(field_ok(fields_of(p), "sutra"@, FieldKind::TextOrEmpty));
            } else if i == 6 {
                assert(field_ok(fields_of(p), "sutra_position"@, FieldKind::TextOrEmpty));
            }
        }
    }
}

/// Checks that parameters have the shape of a sUP suffix entry as the consistency checker reads it.
pub fn check_sup_check_shape(p: &Params) -> (r: Result<(), String>)
    ensures
        r is Ok == sup_check_shape(*p),
        r matches Err(m) ==> m@ == sup_check_error(*p),
{
    proof {
        lemma_sup_check_shape(*p);
        lemma_params_error_none("SupParams"@, sup_check_schema(), *p);
    }
    check_params("SupParams", &sup_check_fields(), p)
}

/// The fields of the record `PratyayaRule` and how each is read, in its order.
pub open spec fn pratyaya_schema() -> Schema {
    seq![
        ("condition_stem_class"@, FieldKind::Required),
        ("condition_suffix"@, FieldKind::TextOrEmpty),
        ("input_suffix"@, FieldKind::Required),
        ("output_suffix"@, FieldKind::Required),
        ("condition_vibhakti"@, FieldKind::OptionalText),
        ("sutra"@, FieldKind::TextOrEmpty),
        ("sutra_position"@, FieldKind::TextOrEmpty),
        ("rule_type"@, FieldKind::TextOrEmpty),
    ]
}

/// The fields of the record `PratyayaRule`, for reading.
fn pratyaya_fields() -> (r: Vec<(&'static str, FieldKind)>)
    ensures
        schema_view(r@) == pratyaya_schema(),
{
    let r = vec![
        ("condition_stem_class", FieldKind::Required),
        ("condition_suffix", FieldKind::TextOrEmpty),
        ("input_suffix", FieldKind::Required),
        ("output_suffix", FieldKind::Required),
        ("condition_vibhakti", FieldKind::OptionalText),
        ("sutra", FieldKind::TextOrEmpty),
        ("sutra_position", FieldKind::TextOrEmpty),
        ("rule_type", FieldKind::TextOrEmpty),
    ];
    assert(schema_view(r@) =~= pratyaya_schema());
    r
}

/// A suffix-modification rule.
pub open spec fn pratyaya_shape(p: Params) -> bool {
    &&& p is Object
    &&& field_ok(fields_of(p), "condition_stem_class"@, FieldKind::Required)
    &&& field_ok(fields_of(p), "condition_suffix"@, FieldKind::TextOrEmpty)
    &&& field_ok(fields_of(p), "input_suffix"@, FieldKind::Required)
    &&& field_ok(fields_of(p), "output_suffix"@, FieldKind::Required)
    &&& field_ok(fields_of(p), "condition_vibhakti"@, FieldKind::OptionalText)
    &&& field_ok(fields_of(p), "sutra"@, FieldKind::TextOrEmpty)
    &&& field_ok(fields_of(p), "sutra_position"@, FieldKind::TextOrEmpty)
    &&& field_ok(fields_of(p), "rule_type"@, FieldKind::TextOrEmpty)
    &&& no_duplicate_known(fields_of(p), pratyaya_schema())
}

/// The first reason parameters cannot be read as `PratyayaRule` (empty when there is none).
pub open spec fn pratyaya_error(p: Params) -> Seq<char> {
    params_error_text("PratyayaRule"@, pratyaya_schema(), p)
}

/// The shape is the record's schema read in full.
proof fn lemma_pratyaya_shape(p: Params)
    ensures
        pratyaya_shape(p) == schema_ok(pratyaya_schema(), p),
{
    let s = pratyaya_schema();
    if schema_ok(s, p) {
        assert(field_ok(fields_of(p), s[0].0, s[0].1));
        assert(field_ok(fields_of(p), s[1].0, s[1].1));
        assert(field_ok(fields_of(p), s[2].0, s[2].1));
        assert(field_ok(fields_of(p), s[3].0, s[3].1));
        assert(field_ok(fields_of(p), s[4].0, s[4].1));
        assert(field_ok(fields_of(p), s[5].0, s[5].1));
        assert(field_ok(fields_of(p), s[6].0, s[6].1));
        assert(field_ok(fields_of(p), s[7].0, s[7].1));
    }
    if pratyaya_shape(p) {
        assert forall|i: int| 0 <= i < s.len() implies field_ok(fields_of(p), #[trigger] s[i].0, s[i].1) by {
            if i == 0 {
                assert(field_ok(fields_of(p), "condition_stem_class"@, FieldKind::Required));
            } else if i == 1 {
                assert(field_ok(fields_of(p), "condition_suffix"@, FieldKind::TextOrEmpty));
            } else if i == 2 {
                assert(field_ok(fields_of(p), "input_suffix"@, FieldKind::Required));
            } else if i == 3 {
                assert(field_ok(fields_of(p), "output_suffix"@, FieldKind::Required));
            } else if i == 4 {
                assert(field_ok(fields_of(p), "condition_vibhakti"@, FieldKind::OptionalText));
            } else if i == 5 {
                assert(field_ok(fields_of(p), "sutra"@, FieldKind::TextOrEmpty));
            } else if i == 6 {
                assert(field_ok(fields_of(p), "sutra_position"@, FieldKind::TextOrEmpty));
            } else if i == 7 {
                assert(field_ok(fields_of(p), "rule_type"@, FieldKind::TextOrEmpty));
            }
        }
    }
}

/// Checks that parameters have the shape of a suffix-modification rule.
pub fn check_pratyaya_shape(p: &Params) -> (r: Result<(), String>)
    ensures
        r is Ok == pratyaya_shape(*p),
        r matches Err(m) ==> m@ == pratyaya_error(*p),
{
    proof {
        lemma_pratyaya_shape(*p);
        lemma_params_error_none("PratyayaRule"@, pratyaya_schema(), *p);
    }
    check_params("PratyayaRule", &pratyaya_fields(), p)
}

/// The fields of the record `AngaRule` and how each is read, in its order.
pub open spec fn anga_schema() -> Schema {
    seq![
        ("condition_stem_final"@, FieldKind::Required),
        ("condition_suffix_initial"@, FieldKind::OptionalText),
        ("condition_vacana"@, FieldKind::OptionalText),
        ("condition_vibhakti"@, FieldKind::OptionalText),
        ("operation"@, FieldKind::OptionalText),
        ("operation_target"@, FieldKind::OptionalText),
        ("operation_input"@, FieldKind::Required),
        ("operation_output"@, FieldKind::Required),
        ("sutra"@, FieldKind::TextOrEmpty),
        ("sutra_position"@, FieldKind::TextOrEmpty),
        ("rule_type"@, FieldKind::TextOrEmpty),
    ]
}

/// The fields of the record `AngaRule`, for reading.
fn anga_fields() -> (r: Vec<(&'static str, FieldKind)>)
    ensures
        schema_view(r@) == anga_schema(),
{
    let r = vec![
        ("condition_stem_final", FieldKind::Required),
        ("condition_suffix_initial", FieldKind::OptionalText),
        ("condition_vacana", FieldKind::OptionalText),
        ("condition_vibhakti", FieldKind::OptionalText),
        ("operation", FieldKind::OptionalText),
        ("operation_target", FieldKind::OptionalText),
        ("operation_input", FieldKind::Required),
        ("operation_output", FieldKind::Required),
        ("sutra", FieldKind::TextOrEmpty),
        ("sutra_position", FieldKind::TextOrEmpty),
        ("rule_type", FieldKind::TextOrEmpty),
    ];
    assert(schema_view(r@) =~= anga_schema());
    r
}

/// A stem-modification rule as the engine reads it.
pub open spec fn anga_shape(p: Params) -> bool {
    &&& p is Object
    &&& field_ok(fields_of(p), "condition_stem_final"@, FieldKind::Required)
    &&& field_ok(fields_of(p), "condition_suffix_initial"@, FieldKind::OptionalText)
    &&& field_ok(fields_of(p), "condition_vacana"@, FieldKind::OptionalText)
    &&& field_ok(fields_of(p), "condition_vibhakti"@, FieldKind::OptionalText)
    &&& field_ok(fields_of(p), "operation"@, FieldKind::OptionalText)
    &&& field_ok(fields_of(p), "operation_target"@, FieldKind::OptionalText)
    &&& field_ok(fields_of(p), "operation_input"@, FieldKind::Required)
    &&& field_ok(fields_of(p), "operation_output"@, FieldKind::Required)
    &&& field_ok(fields_of(p), "sutra"@, FieldKind::TextOrEmpty)
    &&& field_ok(fields_of(p), "sutra_position"@, FieldKind::TextOrEmpty)
    &&& field_ok(fields_of(p), "rule_type"@, FieldKind::TextOrEmpty)
    &&& no_duplicate_known(fields_of(p), anga_schema())
}

/// The first reason parameters cannot be read as `AngaRule` (empty when there is none).
pub open spec fn anga_error(p: Params) -> Seq<char> {
    params_error_text("AngaRule"@, anga_schema(), p)
}

/// The shape is the record's schema read in full.
proof fn lemma_anga_shape(p: Params)
    ensures
        anga_shape(p) == schema_ok(anga_schema(), p),
{
    let s = anga_schema();
    if schema_ok(s, p) {
        assert(field_ok(fields_of(p), s[0].0, s[0].1));
        assert(field_ok(fields_of(p), s[1].0, s[1].1));
        assert(field_ok(fields_of(p), s[2].0, s[2].1));
        assert(field_ok(fields_of(p), s[3].0, s[3].1));
        assert(field_ok(fields_of(p), s[4].0, s[4].1));
        assert(field_ok(fields_of(p), s[5].0, s[5].1));
        assert(field_ok(fields_of(p), s[6].0, s[6].1));
        assert(field_ok(fields_of(p), s[7].0, s[7].1));
        assert(field_ok(fields_of(p), s[8].0, s[8].1));
        assert(field_ok(fields_of(p), s[9].0, s[9].1));
        assert(field_ok(fields_of(p), s[10].0, s[10].1));
    }
    if anga_shape(p) {
        assert forall|i: int| 0 <= i < s.len() implies field_ok(fields_of(p), #[trigger] s[i].0, s[i].1) by {
            if i == 0 {
                assert(field_ok(fields_of(p), "condition_stem_final"@, FieldKind::Required));
            } else if i == 1 {
                assert(field_ok(fields_of(p), "condition_suffix_initial"@, FieldKind::OptionalText));
            } else if i == 2 {
                assert(field_ok(fields_of(p), "condition_vacana"@, FieldKind::OptionalText));
            } else if i == 3 {
                assert(field_ok(fields_of(p), "condition_vibhakti"@, FieldKind::OptionalText));
            } else if i == 4 {
                assert(field_ok(fields_of(p), "operation"@, FieldKind::OptionalText));
            } else if i == 5 {
                assert(field_ok(fields_of(p), "operation_target"@, FieldKind::OptionalText));
            } else if i == 6 {
                assert(field_ok(fields_of(p), "operation_input"@, FieldKind::Required));
            } else if i == 7 {
                assert(field_ok(fields_of(p), "operation_output"@, FieldKind::Required));
            } else if i == 8 {
                assert(field_ok(fields_of(p), "sutra"@, FieldKind::TextOrEmpty));
            } else if i == 9 {
                assert(field_ok(fields_of(p), "sutra_position"@, FieldKind::TextOrEmpty));
            } else if i == 10 {
                assert(field_ok(fields_of(p), "rule_type"@, FieldKind::TextOrEmpty));
            }
        }
    }
}

/// Checks that parameters have the shape of a stem-modification rule as the engine reads it.
pub fn check_anga_shape(p: &Params) -> (r: Result<(), String>)
    ensures
        r is Ok == anga_shape(*p),
        r matches Err(m) ==> m@ == anga_error(*p),
{
    proof {
        lemma_anga_shape(*p);
        lemma_params_error_none("AngaRule"@, anga_schema(), *p);
    }
    check_params("AngaRule", &anga_fields(), p)
}

/// The fields of the record `AngaParams` and how each is read, in its order.
pub open spec fn anga_check_schema() -> Schema {
    seq![
        ("condition_stem_final"@, FieldKind::Required),
        ("condition_suffix_initial"@, FieldKind::OptionalText),
        ("condition_vacana"@, FieldKind::OptionalText),
        ("condition_vibhakti"@, FieldKind::OptionalText),
        ("operation_input"@, FieldKind::Required),
        ("operation_output"@, FieldKind::Required),
        ("sutra"@, FieldKind::TextOrEmpty),
        ("sutra_position"@, FieldKind::TextOrEmpty),
        ("rule_type"@, FieldKind::TextOrEmpty),
    ]
}

/// The fields of the record `AngaParams`, for reading.
fn anga_check_fields() -> (r: Vec<(&'static str, FieldKind)>)
    ensures
        schema_view(r@) == anga_check_schema(),
{
    let r = vec![
        ("condition_stem_final", FieldKind::Required),
        ("condition_suffix_initial", FieldKind::OptionalText),
        ("condition_vacana", FieldKind::OptionalText),
        ("condition_vibhakti", FieldKind::OptionalText),
        ("operation_input", FieldKind::Required),
        ("operation_output", FieldKind::Required),
        ("sutra", FieldKind::TextOrEmpty),
        ("sutra_position", FieldKind::TextOrEmpty),
        ("rule_type", FieldKind::TextOrEmpty),
    ];
    assert(schema_view(r@) =~= anga_check_schema());
    r
}

/// A stem-modification rule as the consistency checker reads it.
pub open spec fn anga_check_shape(p: Params) -> bool {
    &&& p is Object
    &&& field_ok(fields_of(p), "condition_stem_final"@, FieldKind::Required)
    &&& field_ok(fields_of(p), "condition_suffix_initial"@, FieldKind::OptionalText)
    &&& field_ok(fields_of(p), "condition_vacana"@, FieldKind::OptionalText)
    &&& field_ok(fields_of(p), "condition_vibhakti"@, FieldKind::OptionalText)
    &&& field_ok(fields_of(p), "operation_input"@, FieldKind::Required)
    &&& field_ok(fields_of(p), "operation_output"@, FieldKind::Required)
    &&& field_ok(fields_of(p), "sutra"@, FieldKind::TextOrEmpty)
    &&& field_ok(fields_of(p), "sutra_position"@, FieldKind::TextOrEmpty)
    &&& field_ok(fields_of(p), "rule_type"@, FieldKind::TextOrEmpty)
    &&& no_duplicate_known(fields_of(p), anga_check_schema())
}

/// The first reason parameters cannot be read as `AngaParams` (empty when there is none).
pub open spec fn anga_check_error(p: Params) -> Seq<char> {
    params_error_text("AngaParams"@, anga_check_schema(), p)
}

/// The shape is the record's schema read in full.
proof fn lemma_anga_check_shape(p: Params)
    ensures
        anga_check_shape(p) == schema_ok(anga_check_schema(), p),
{
    let s = anga_check_schema();
    if schema_ok(s, p) {
        assert(field_ok(fields_of(p), s[0].0, s[0].1));
        assert(field_ok(fields_of(p), s[1].0, s[1].1));
        assert(field_ok(fields_of(p), s[2].0, s[2].1));
        assert(field_ok(fields_of(p), s[3].0, s[3].1));
        assert(field_ok(fields_of(p), s[4].0, s[4].1));
        assert(field_ok(fields_of(p), s[5].0, s[5].1));
        assert(field_ok(fields_of(p), s[6].0, s[6].1));
        assert(field_ok(fields_of(p), s[7].0, s[7].1));
        assert(field_ok(fields_of(p), s[8].0, s[8].1));
    }
    if anga_check_shape(p) {
        assert forall|i: int| 0 <= i < s.len() implies field_ok(fields_of(p), #[trigger] s[i].0, s[i].1) by {
            if i == 0 {
                assert(field_ok(fields_of(p), "condition_stem_final"@, FieldKind::Required));
            } else if i == 1 {
                assert(field_ok(fields_of(p), "condition_suffix_initial"@, FieldKind::OptionalText));
            } else if i == 2 {
                assert(field_ok(fields_of(p), "condition_vacana"@, FieldKind::OptionalText));
            } else if i == 3 {
                assert(field_ok(fields_of(p), "condition_vibhakti"@, FieldKind::OptionalText));
            } else if i == 4 {
                assert(field_ok(fields_of(p), "operation_input"@, FieldKind::Required));
            } else if i == 5 {
                assert(field_ok(fields_of(p), "operation_output"@, FieldKind::Required));
            } else if i == 6 {
                assert(field_ok(fields_of(p), "sutra"@, FieldKind::TextOrEmpty));
            } else if i == 7 {
                assert(field_ok(fields_of(p), "sutra_position"@, FieldKind::TextOrEmpty));
            } else if i == 8 {
                assert(field_ok(fields_of(p), "rule_type"@, FieldKind::TextOrEmpty));
            }
        }
    }
}

/// Checks that parameters have the shape of a stem-modification rule as the consistency checker reads it.
pub fn check_anga_check_shape(p: &Params) -> (r: Result<(), String>)
    ensures
        r is Ok == anga_check_shape(*p),
        r matches Err(m) ==> m@ == anga_check_error(*p),
{
    proof {
        lemma_anga_check_shape(*p);
        lemma_params_error_none("AngaParams"@, anga_check_schema(), *p);
    }
    check_params("AngaParams", &anga_check_fields(), p)
}

/// The fields of the record `TripadiRule` and how each is read, in its order.
pub open spec fn tripadi_schema() -> Schema {
    seq![
        ("condition_preceding"@, FieldKind::OptionalText),
        ("condition_following"@, FieldKind::OptionalText),
        ("input"@, FieldKind::Required),
        ("output"@, FieldKind::Required),
        ("position"@, FieldKind::Required),
        ("sutra"@, FieldKind::TextOrEmpty),
        ("sutra_position"@, FieldKind::TextOrEmpty),
        ("rule_type"@, FieldKind::TextOrEmpty),
    ]
}

/// The fields of the record `TripadiRule`, for reading.
fn tripadi_fields() -> (r: Vec<(&'static str, FieldKind)>)
    ensures
        schema_view(r@) == tripadi_schema(),
{
    let r = vec![
        ("condition_preceding", FieldKind::OptionalText),
        ("condition_following", FieldKind::OptionalText),
        ("input", FieldKind::Required),
        ("output", FieldKind::Required),
        ("position", FieldKind::Required),
        ("sutra", FieldKind::TextOrEmpty),
        ("sutra_position", FieldKind::TextOrEmpty),
        ("rule_type", FieldKind::TextOrEmpty),
    ];
    assert(schema_view(r@) =~= tripadi_schema());
    r
}

/// A tripādī rule as the engine reads it.
pub open spec fn tripadi_shape(p: Params) -> bool {
    &&& p is Object
    &&& field_ok(fields_of(p), "condition_preceding"@, FieldKind::OptionalText)
    &&& field_ok(fields_of(p), "condition_following"@, FieldKind::OptionalText)
    &&& field_ok(fields_of(p), "input"@, FieldKind::Required)
    &&& field_ok(fields_of(p), "output"@, FieldKind::Required)
    &&& field_ok(fields_of(p), "position"@, FieldKind::Required)
    &&& field_ok(fields_of(p), "sutra"@, FieldKind::TextOrEmpty)
    &&& field_ok(fields_of(p), "sutra_position"@, FieldKind::TextOrEmpty)
    &&& field_ok(fields_of(p), "rule_type"@, FieldKind::TextOrEmpty)
    &&& no_duplicate_known(fields_of(p), tripadi_schema())
}

/// The first reason parameters cannot be read as `TripadiRule` (empty when there is none).
pub open spec fn tripadi_error(p: Params) -> Seq<char> {
    params_error_text("TripadiRule"@, tripadi_schema(), p)
}

/// The shape is the record's schema read in full.
proof fn lemma_tripadi_shape(p: Params)
    ensures
        tripadi_shape(p) == schema_ok(tripadi_schema(), p),
{
    let s = tripadi_schema();
    if schema_ok(s, p) {
        assert(field_ok(fields_of(p), s[0].0, s[0].1));
        assert(field_ok(fields_of(p), s[1].0, s[1].1));
        assert(field_ok(fields_of(p), s[2].0, s[2].1));
        assert(field_ok(fields_of(p), s[3].0, s[3].1));
        assert(field_ok(fields_of(p), s[4].0, s[4].1));
        assert(field_ok(fields_of(p), s[5].0, s[5].1));
        assert(field_ok(fields_of(p), s[6].0, s[6].1));
        assert(field_ok(fields_of(p), s[7].0, s[7].1));
    }
    if tripadi_shape(p) {
        assert forall|i: int| 0 <= i < s.len() implies field_ok(fields_of(p), #[trigger] s[i].0, s[i].1) by {
            if i == 0 {
                assert(field_ok(fields_of(p), "condition_preceding"@, FieldKind::OptionalText));
            } else if i == 1 {
                assert(field_ok(fields_of(p), "condition_following"@, FieldKind::OptionalText));
            } else if i == 2 {
                assert(field_ok(fields_of(p), "input"@, FieldKind::Required));
            } else if i == 3 {
                assert(field_ok(fields_of(p), "output"@, FieldKind::Required));
            } else if i == 4 {
                assert(field_ok(fields_of(p), "position"@, FieldKind::Required));
            } else if i == 5 {
                assert(field_ok(fields_of(p), "sutra"@, FieldKind::TextOrEmpty));
            } else if i == 6 {
                assert(field_ok(fields_of(p), "sutra_position"@, FieldKind::TextOrEmpty));
            } else if i == 7 {
                assert(field_ok(fields_of(p), "rule_type"@, FieldKind::TextOrEmpty));
            }
        }
    }
}

/// Checks that parameters have the shape of a tripādī rule as the engine reads it.
pub fn check_tripadi_shape(p: &Params) -> (r: Result<(), String>)
    ensures
        r is Ok == tripadi_shape(*p),
        r matches Err(m) ==> m@ == tripadi_error(*p),
{
    proof {
        lemma_tripadi_shape(*p);
        lemma_params_error_none("TripadiRule"@, tripadi_schema(), *p);
    }
    check_params("TripadiRule", &tripadi_fields(), p)
}

/// The fields of the record `TripadiParams` and how each is read, in its order.
pub open spec fn tripadi_check_schema() -> Schema {
    seq![
        ("condition_preceding"@, FieldKind::OptionalText),
        ("input"@, FieldKind::Required),
        ("output"@, FieldKind::Required),
        ("position"@, FieldKind::Required),
        ("sutra"@, FieldKind::TextOrEmpty),
        ("sutra_position"@, FieldKind::TextOrEmpty),
        ("rule_type"@, FieldKind::TextOrEmpty),
    ]
}

/// The fields of the record `TripadiParams`, for reading.
fn tripadi_check_fields() -> (r: Vec<(&'static str, FieldKind)>)
    ensures
        schema_view(r@) == tripadi_check_schema(),
{
    let r = vec![
        ("condition_preceding", FieldKind::OptionalText),
        ("input", FieldKind::Required),
        ("output", FieldKind::Required),
        ("position", FieldKind::Required),
        ("sutra", FieldKind::TextOrEmpty),
        ("sutra_position", FieldKind::TextOrEmpty),
        ("rule_type", FieldKind::TextOrEmpty),
    ];
    assert(schema_view(r@) =~= tripadi_check_schema());
    r
}

/// A tripādī rule as the consistency checker reads it.
pub open spec fn tripadi_check_shape(p: Params) -> bool {
    &&& p is Object
    &&& field_ok(fields_of(p), "condition_preceding"@, FieldKind::OptionalText)
    &&& field_ok(fields_of(p), "input"@, FieldKind::Required)
    &&& field_ok(fields_of(p), "output"@, FieldKind::Required)
    &&& field_ok(fields_of(p), "position"@, FieldKind::Required)
    &&& field_ok(fields_of(p), "sutra"@, FieldKind::TextOrEmpty)
    &&& field_ok(fields_of(p), "sutra_position"@, FieldKind::TextOrEmpty)
    &&& field_ok(fields_of(p), "rule_type"@, FieldKind::TextOrEmpty)
    &&& no_duplicate_known(fields_of(p), tripadi_check_schema())
}

/// The first reason parameters cannot be read as `TripadiParams` (empty when there is none).
pub open spec fn tripadi_check_error(p: Params) -> Seq<char> {
    params_error_text("TripadiParams"@, tripadi_check_schema(), p)
}

/// The shape is the record's schema read in full.
proof fn lemma_tripadi_check_shape(p: Params)
    ensures
        tripadi_check_shape(p) == schema_ok(tripadi_check_schema(), p),
{
    let s = tripadi_check_schema();
    if schema_ok(s, p) {
        assert(field_ok(fields_of(p), s[0].0, s[0].1));
        assert(field_ok(fields_of(p), s[1].0, s[1].1));
        assert(field_ok(fields_of(p), s[2].0, s[2].1));
        assert(field_ok(fields_of(p), s[3].0, s[3].1));
        assert(field_ok(fields_of(p), s[4].0, s[4].1));
        assert(field_ok(fields_of(p), s[5].0, s[5].1));
        assert(field_ok(fields_of(p), s[6].0, s[6].1));
    }
    if tripadi_check_shape(p) {
        assert forall|i: int| 0 <= i < s.len() implies field_ok(fields_of(p), #[trigger] s[i].0, s[i].1) by {
            if i == 0 {
                assert(field_ok(fields_of(p), "condition_preceding"@, FieldKind::OptionalText));
            } else if i == 1 {
                assert(field_ok(fields_of(p), "input"@, FieldKind::Required));
            } else if i == 2 {
                assert(field_ok(fields_of(p), "output"@, FieldKind::Required));
            } else if i == 3 {
                assert(field_ok(fields_of(p), "position"@, FieldKind::Required));
            } else if i == 4 {
                assert(field_ok(fields_of(p), "sutra"@, FieldKind::TextOrEmpty));
            } else if i == 5 {
                assert(field_ok(fields_of(p), "sutra_position"@, FieldKind::TextOrEmpty));
            } else if i == 6 {
                assert(field_ok(fields_of(p), "rule_type"@, FieldKind::TextOrEmpty));
            }
        }
    }
}

/// Checks that parameters have the shape of a tripādī rule as the consistency checker reads it.
pub fn check_tripadi_check_shape(p: &Params) -> (r: Result<(), String>)
    ensures
        r is Ok == tripadi_check_shape(*p),
        r matches Err(m) ==> m@ == tripadi_check_error(*p),
{
    proof {
        lemma_tripadi_check_shape(*p);
        lemma_params_error_none("TripadiParams"@, tripadi_check_schema(), *p);
    }
    check_params("TripadiParams", &tripadi_check_fields(), p)
}

/// The fields of the record `TinSuffix` and how each is read, in its order.
pub open spec fn tin_schema() -> Schema {
    seq![
        ("lakara"@, FieldKind::Required),
        ("purusha"@, FieldKind::Required),
        ("vacana"@, FieldKind::Required),
        ("pada"@, FieldKind::Required),
        ("pratyaya_name"@, FieldKind::Required),
        ("suffix"@, FieldKind::Required),
        ("is_pit"@, FieldKind::Flag),
        ("sutra"@, FieldKind::TextOrEmpty),
    ]
}

/// The fields of the record `TinSuffix`, for reading.
fn tin_fields() -> (r: Vec<(&'static str, FieldKind)>)
    ensures
        schema_view(r@) == tin_schema(),
{
    let r = vec![
        ("lakara", FieldKind::Required),
        ("purusha", FieldKind::Required),
        ("vacana", FieldKind::Required),
        ("pada", FieldKind::Required),
        ("pratyaya_name", FieldKind::Required),
        ("suffix", FieldKind::Required),
        ("is_pit", FieldKind::Flag),
        ("sutra", FieldKind::TextOrEmpty),
    ];
    assert(schema_view(r@) =~= tin_schema());
    r
}

/// A tiṅ suffix entry.
pub open spec fn tin_shape(p: Params) -> bool {
    &&& p is Object
    &&& field_ok(fields_of(p), "lakara"@, FieldKind::Required)
    &&& field_ok(fields_of(p), "purusha"@, FieldKind::Required)
    &&& field_ok(fields_of(p), "vacana"@, FieldKind::Required)
    &&& field_ok(fields_of(p), "pada"@, FieldKind::Required)
    &&& field_ok(fields_of(p), "pratyaya_name"@, FieldKind::Required)
    &&& field_ok(fields_of(p), "suffix"@, FieldKind::Required)
    &&& field_ok(fields_of(p), "is_pit"@, FieldKind::Flag)
    &&& field_ok(fields_of(p), "sutra"@, FieldKind::TextOrEmpty)
    &&& no_duplicate_known(fields_of(p), tin_schema())
}

/// The first reason parameters cannot be read as `TinSuffix` (empty when there is none).
pub open spec fn tin_error(p: Params) -> Seq<char> {
    params_error_text("TinSuffix"@, tin_schema(), p)
}

/// The shape is the record's schema read in full.
proof fn lemma_tin_shape(p: Params)
    ensures
        tin_shape(p) == schema_ok(tin_schema(), p),
{
    let s = tin_schema();
    if schema_ok(s, p) {
        assert(field_ok(fields_of(p), s[0].0, s[0].1));
        assert(field_ok(fields_of(p), s[1].0, s[1].1));
        assert(field_ok(fields_of(p), s[2].0, s[2].1));
        assert(field_ok(fields_of(p), s[3].0, s[3].1));
        assert(field_ok(fields_of(p), s[4].0, s[4].1));
        assert(field_ok(fields_of(p), s[5].0, s[5].1));
        assert(field_ok(fields_of(p), s[6].0, s[6].1));
        assert(field_ok(fields_of(p), s[7].0, s[7].1));
    }
    if tin_shape(p) {
        assert forall|i: int| 0 <= i < s.len() implies field_ok(fields_of(p), #[trigger] s[i].0, s[i].1) by {
            if i == 0 {
                assert(field_ok(fields_of(p), "lakara"@, FieldKind::Required));
            } else if i == 1 {
                assert(field_ok(fields_of(p), "purusha"@, FieldKind::Required));
            } else if i == 2 {
                assert(field_ok(fields_of(p), "vacana"@, FieldKind::Required));
            } else if i == 3 {
                assert(field_ok(fields_of(p), "pada"@, FieldKind::Required));
            } else if i == 4 {
                assert(field_ok(fields_of(p), "pratyaya_name"@, FieldKind::Required));
            } else if i == 5 {
                assert(field_ok(fields_of(p), "suffix"@, FieldKind::Required));
            } else if i == 6 {
                assert(field_ok(fields_of(p), "is_pit"@, FieldKind::Flag));
            } else if i == 7 {
                assert(field_ok(fields_of(p), "sutra"@, FieldKind::TextOrEmpty));
            }
        }
    }
}

/// Checks that parameters have the shape of a tiṅ suffix entry.
pub fn check_tin_shape(p: &Params) -> (r: Result<(), String>)
    ensures
        r is Ok == tin_shape(*p),
        r matches Err(m) ==> m@ == tin_error(*p),
{
    proof {
        lemma_tin_shape(*p);
        lemma_params_error_none("TinSuffix"@, tin_schema(), *p);
    }
    check_params("TinSuffix", &tin_fields(), p)
}

/// The fields of the record `VikaranaRule` and how each is read, in its order.
pub open spec fn vikarana_schema() -> Schema {
    seq![
        ("gana"@, FieldKind::Required),
        ("vikarana_name"@, FieldKind::TextOrEmpty),
        ("suffix"@, FieldKind::Required),
        ("lakara_type"@, FieldKind::OptionalText),
        ("it_markers"@, FieldKind::TextList),
        ("sutra"@, FieldKind::TextOrEmpty),
        ("insertion_mode"@, FieldKind::OptionalText),
    ]
}

/// The fields of the record `VikaranaRule`, for reading.
fn vikarana_fields() -> (r: Vec<(&'static str, FieldKind)>)
    ensures
        schema_view(r@) == vikarana_schema(),
{
    let r = vec![
        ("gana", FieldKind::Required),
        ("vikarana_name", FieldKind::TextOrEmpty),
        ("suffix", FieldKind::Required),
        ("lakara_type", FieldKind::OptionalText),
        ("it_markers", FieldKind::TextList),
        ("sutra", FieldKind::TextOrEmpty),
        ("insertion_mode", FieldKind::OptionalText),
    ];
    assert(schema_view(r@) =~= vikarana_schema());
    r
}

/// A vikaraṇa entry.
pub open spec fn vikarana_shape(p: Params) -> bool {
    &&& p is Object
    &&& field_ok(fields_of(p), "gana"@, FieldKind::Required)
    &&& field_ok(fields_of(p), "vikarana_name"@, FieldKind::TextOrEmpty)
    &&& field_ok(fields_of(p), "suffix"@, FieldKind::Required)
    &&& field_ok(fields_of(p), "lakara_type"@, FieldKind::OptionalText)
    &&& field_ok(fields_of(p), "it_markers"@, FieldKind::TextList)
    &&& field_ok(fields_of(p), "sutra"@, FieldKind::TextOrEmpty)
    &&& field_ok(fields_of(p), "insertion_mode"@, FieldKind::OptionalText)
    &&& no_duplicate_known(fields_of(p), vikarana_schema())
}

/// The first reason parameters cannot be read as `VikaranaRule` (empty when there is none).
pub open spec fn vikarana_error(p: Params) -> Seq<char> {
    params_error_text("VikaranaRule"@, vikarana_schema(), p)
}

/// The shape is the record's schema read in full.
proof fn lemma_vikarana_shape(p: Params)
    ensures
        vikarana_shape(p) == schema_ok(vikarana_schema(), p),
{
    let s = vikarana_schema();
    if schema_ok(s, p) {
        assert(field_ok(fields_of(p), s[0].0, s[0].1));
        assert(field_ok(fields_of(p), s[1].0, s[1].1));
        assert(field_ok(fields_of(p), s[2].0, s[2].1));
        assert(field_ok(fields_of(p), s[3].0, s[3].1));
        assert(field_ok(fields_of(p), s[4].0, s[4].1));
        assert(field_ok(fields_of(p), s[5].0, s[5].1));
        assert(field_ok(fields_of(p), s[6].0, s[6].1));
    }
    if vikarana_shape(p) {
        assert forall|i: int| 0 <= i < s.len() implies field_ok(fields_of(p), #[trigger] s[i].0, s[i].1) by {
            if i == 0 {
                assert(field_ok(fields_of(p), "gana"@, FieldKind::Required));
            } else if i == 1 {
                assert(field_ok(fields_of(p), "vikarana_name"@, FieldKind::TextOrEmpty));
            } else if i == 2 {
                assert(field_ok(fields_of(p), "suffix"@, FieldKind::Required));
            } else if i == 3 {
                assert(field_ok(fields_of(p), "lakara_type"@, FieldKind::OptionalText));
            } else if i == 4 {
                assert(field_ok(fields_of(p), "it_markers"@, FieldKind::TextList));
            } else if i == 5 {
                assert(field_ok(fields_of(p), "sutra"@, FieldKind::TextOrEmpty));
            } else if i == 6 {
                assert(field_ok(fields_of(p), "insertion_mode"@, FieldKind::OptionalText));
            }
        }
    }
}

/// Checks that parameters have the shape of a vikaraṇa entry.
pub fn check_vikarana_shape(p: &Params) -> (r: Result<(), String>)
    ensures
        r is Ok == vikarana_shape(*p),
        r matches Err(m) ==> m@ == vikarana_error(*p),
{
    proof {
        lemma_vikarana_shape(*p);
        lemma_params_error_none("VikaranaRule"@, vikarana_schema(), *p);
    }
    check_params("VikaranaRule", &vikarana_fields(), p)
}

/// The fields of the record `VerbAngaRule` and how each is read, in its order.
pub open spec fn verb_anga_schema() -> Schema {
    seq![
        ("stage"@, FieldKind::Required),
        ("rule_type"@, FieldKind::Required),
        ("condition_dhatu_final"@, FieldKind::OptionalText),
        ("condition_dhatu_vowel"@, FieldKind::OptionalText),
        ("position"@, FieldKind::OptionalText),
        ("input"@, FieldKind::OptionalText),
        ("output"@, FieldKind::OptionalText),
        ("condition_suffix_initial_class"@, FieldKind::OptionalText),
        ("operation_input"@, FieldKind::OptionalText),
        ("operation_output"@, FieldKind::OptionalText),
        ("condition_anga_final"@, FieldKind::OptionalText),
        ("condition_vikarana"@, FieldKind::OptionalText),
        ("condition_suffix_pit"@, FieldKind::OptionalFlag),
        ("condition_suffix_initial_type"@, FieldKind::OptionalText),
        ("sutra"@, FieldKind::TextOrEmpty),
    ]
}

/// The fields of the record `VerbAngaRule`, for reading.
fn verb_anga_fields() -> (r: Vec<(&'static str, FieldKind)>)
    ensures
        schema_view(r@) == verb_anga_schema(),
{
    let r = vec![
        ("stage", FieldKind::Required),
        ("rule_type", FieldKind::Required),
        ("condition_dhatu_final", FieldKind::OptionalText),
        ("condition_dhatu_vowel", FieldKind::OptionalText),
        ("position", FieldKind::OptionalText),
        ("input", FieldKind::OptionalText),
        ("output", FieldKind::OptionalText),
        ("condition_suffix_initial_class", FieldKind::OptionalText),
        ("operation_input", FieldKind::OptionalText),
        ("operation_output", FieldKind::OptionalText),
        ("condition_anga_final", FieldKind::OptionalText),
        ("condition_vikarana", FieldKind::OptionalText),
        ("condition_suffix_pit", FieldKind::OptionalFlag),
        ("condition_suffix_initial_type", FieldKind::OptionalText),
        ("sutra", FieldKind::TextOrEmpty),
    ];
    assert(schema_view(r@) =~= verb_anga_schema());
    r
}

/// A verbal aṅga rule.
pub open spec fn verb_anga_shape(p: Params) -> bool {
    &&& p is Object
    &&& field_ok(fields_of(p), "stage"@, FieldKind::Required)
    &&& field_ok(fields_of(p), "rule_type"@, FieldKind::Required)
    &&& field_ok(fields_of(p), "condition_dhatu_final"@, FieldKind::OptionalText)
    &&& field_ok(fields_of(p), "condition_dhatu_vowel"@, FieldKind::OptionalText)
    &&& field_ok(fields_of(p), "position"@, FieldKind::OptionalText)
    &&& field_ok(fields_of(p), "input"@, FieldKind::OptionalText)
    &&& field_ok(fields_of(p), "output"@, FieldKind::OptionalText)
    &&& field_ok(fields_of(p), "condition_suffix_initial_class"@, FieldKind::OptionalText)
    &&& field_ok(fields_of(p), "operation_input"@, FieldKind::OptionalText)
    &&& field_ok(fields_of(p), "operation_output"@, FieldKind::OptionalText)
    &&& field_ok(fields_of(p), "condition_anga_final"@, FieldKind::OptionalText)
    &&& field_ok(fields_of(p), "condition_vikarana"@, FieldKind::OptionalText)
    &&& field_ok(fields_of(p), "condition_suffix_pit"@, FieldKind::OptionalFlag)
    &&& field_ok(fields_of(p), "condition_suffix_initial_type"@, FieldKind::OptionalText)
    &&& field_ok(fields_of(p), "sutra"@, FieldKind::TextOrEmpty)
    &&& no_duplicate_known(fields_of(p), verb_anga_schema())
}

/// The first reason parameters cannot be read as `VerbAngaRule` (empty when there is none).
pub open spec fn verb_anga_error(p: Params) -> Seq<char> {
    params_error_text("VerbAngaRule"@, verb_anga_schema(), p)
}

/// The shape is the record's schema read in full.
proof fn lemma_verb_anga_shape(p: Params)
    ensures
        verb_anga_shape(p) == schema_ok(verb_anga_schema(), p),
{
    let s = verb_anga_schema();
    if schema_ok(s, p) {
        assert(field_ok(fields_of(p), s[0].0, s[0].1));
        assert(field_ok(fields_of(p), s[1].0, s[1].1));
        assert(field_ok(fields_of(p), s[2].0, s[2].1));
        assert(field_ok(fields_of(p), s[3].0, s[3].1));
        assert(field_ok(fields_of(p), s[4].0, s[4].1));
        assert(field_ok(fields_of(p), s[5].0, s[5].1));
        assert(field_ok(fields_of(p), s[6].0, s[6].1));
        assert(field_ok(fields_of(p), s[7].0, s[7].1));
        assert(field_ok(fields_of(p), s[8].0, s[8].1));
        assert(field_ok(fields_of(p), s[9].0, s[9].1));
        assert(field_ok(fields_of(p), s[10].0, s[10].1));
        assert(field_ok(fields_of(p), s[11].0, s[11].1));
        assert(field_ok(fields_of(p), s[12].0, s[12].1));
        assert(field_ok(fields_of(p), s[13].0, s[13].1));
        assert(field_ok(fields_of(p), s[14].0, s[14].1));
    }
    if verb_anga_shape(p) {
        assert forall|i: int| 0 <= i < s.len() implies field_ok(fields_of(p), #[trigger] s[i].0, s[i].1) by {
            if i == 0 {
                assert(field_ok(fields_of(p), "stage"@, FieldKind::Required));
            } else if i == 1 {
                assert(field_ok(fields_of(p), "rule_type"@, FieldKind::Required));
            } else if i == 2 {
                assert(field_ok(fields_of(p), "condition_dhatu_final"@, FieldKind::OptionalText));
            } else if i == 3 {
                assert(field_ok(fields_of(p), "condition_dhatu_vowel"@, FieldKind::OptionalText));
            } else if i == 4 {
                assert(field_ok(fields_of(p), "position"@, FieldKind::OptionalText));
            } else if i == 5 {
                assert(field_ok(fields_of(p), "input"@, FieldKind::OptionalText));
            } else if i == 6 {
                assert(field_ok(fields_of(p), "output"@, FieldKind::OptionalText));
            } else if i == 7 {
                assert(field_ok(fields_of(p), "condition_suffix_initial_class"@, FieldKind::OptionalText));
            } else if i == 8 {
                assert(field_ok(fields_of(p), "operation_input"@, FieldKind::OptionalText));
            } else if i == 9 {
                assert(field_ok(fields_of(p), "operation_output"@, FieldKind::OptionalText));
            } else if i == 10 {
                assert(field_ok(fields_of(p), "condition_anga_final"@, FieldKind::OptionalText));
            } else if i == 11 {
                assert(field_ok(fields_of(p), "condition_vikarana"@, FieldKind::OptionalText));
            } else if i == 12 {
                assert(field_ok(fields_of(p), "condition_suffix_pit"@, FieldKind::OptionalFlag));
            } else if i == 13 {
                assert(field_ok(fields_of(p), "condition_suffix_initial_type"@, FieldKind::OptionalText));
            } else if i == 14 {
                assert(field_ok(fields_of(p), "sutra"@, FieldKind::TextOrEmpty));
            }
        }
    }
}

/// Checks that parameters have the shape of a verbal aṅga rule.
pub fn check_verb_anga_shape(p: &Params) -> (r: Result<(), String>)
    ensures
        r is Ok == verb_anga_shape(*p),
        r matches Err(m) ==> m@ == verb_anga_error(*p),
{
    proof {
        lemma_verb_anga_shape(*p);
        lemma_params_error_none("VerbAngaRule"@, verb_anga_schema(), *p);
    }
    check_params("VerbAngaRule", &verb_anga_fields(), p)
}

/// The fields of the record `SandhiInput` and how each is read, in its order.
pub open spec fn sandhi_input_schema() -> Schema {
    seq![
        ("first"@, FieldKind::Required),
        ("second"@, FieldKind::Required),
    ]
}

/// The fields of the record `SandhiInput`, for reading.
fn sandhi_input_fields() -> (r: Vec<(&'static str, FieldKind)>)
    ensures
        schema_view(r@) == sandhi_input_schema(),
{
    let r = vec![
        ("first", FieldKind::Required),
        ("second", FieldKind::Required),
    ];
    assert(schema_view(r@) =~= sandhi_input_schema());
    r
}

/// The input of a sandhi derivation.
pub open spec fn sandhi_input_shape(p: Params) -> bool {
    &&& p is Object
    &&& field_ok(fields_of(p), "first"@, FieldKind::Required)
    &&& field_ok(fields_of(p), "second"@, FieldKind::Required)
    &&& no_duplicate_known(fields_of(p), sandhi_input_schema())
}

/// The first reason parameters cannot be read as `SandhiInput` (empty when there is none).
pub open spec fn sandhi_input_error(p: Params) -> Seq<char> {
    params_error_text("SandhiInput"@, sandhi_input_schema(), p)
}

/// The shape is the record's schema read in full.
proof fn lemma_sandhi_input_shape(p: Params)
    ensures
        sandhi_input_shape(p) == schema_ok(sandhi_input_schema(), p),
{
    let s = sandhi_input_schema();
    if schema_ok(s, p) {
        assert(field_ok(fields_of(p), s[0].0, s[0].1));
        assert(field_ok(fields_of(p), s[1].0, s[1].1));
    }
    if sandhi_input_shape(p) {
        assert forall|i: int| 0 <= i < s.len() implies field_ok(fields_of(p), #[trigger] s[i].0, s[i].1) by {
            if i == 0 {
                assert(field_ok(fields_of(p), "first"@, FieldKind::Required));
            } else if i == 1 {
                assert(field_ok(fields_of(p), "second"@, FieldKind::Required));
            }
        }
    }
}

/// Checks that parameters have the shape of the input of a sandhi derivation.
pub fn check_sandhi_input_shape(p: &Params) -> (r: Result<(), String>)
    ensures
        r is Ok == sandhi_input_shape(*p),
        r matches Err(m) ==> m@ == sandhi_input_error(*p),
{
    proof {
        lemma_sandhi_input_shape(*p);
        lemma_params_error_none("SandhiInput"@, sandhi_input_schema(), *p);
    }
    check_params("SandhiInput", &sandhi_input_fields(), p)
}

/// The fields of the record `DeclensionInput` and how each is read, in its order.
pub open spec fn declension_input_schema() -> Schema {
    seq![
        ("stem"@, FieldKind::Required),
        ("stem_type"@, FieldKind::Required),
        ("case"@, FieldKind::Required),
        ("number"@, FieldKind::Required),
    ]
}

/// The fields of the record `DeclensionInput`, for reading.
fn declension_input_fields() -> (r: Vec<(&'static str, FieldKind)>)
    ensures
        schema_view(r@) == declension_input_schema(),
{
    let r = vec![
        ("stem", FieldKind::Required),
        ("stem_type", FieldKind::Required),
        ("case", FieldKind::Required),
        ("number", FieldKind::Required),
    ];
    assert(schema_view(r@) =~= declension_input_schema());
    r
}

/// The input of a declension.
pub open spec fn declension_input_shape(p: Params) -> bool {
    &&& p is Object
    &&& field_ok(fields_of(p), "stem"@, FieldKind::Required)
    &&& field_ok(fields_of(p), "stem_type"@, FieldKind::Required)
    &&& field_ok(fields_of(p), "case"@, FieldKind::Required)
    &&& field_ok(fields_of(p), "number"@, FieldKind::Required)
    &&& no_duplicate_known(fields_of(p), declension_input_schema())
}

/// The first reason parameters cannot be read as `DeclensionInput` (empty when there is none).
pub open spec fn declension_input_error(p: Params) -> Seq<char> {
    params_error_text("DeclensionInput"@, declension_input_schema(), p)
}

/// The shape is the record's schema read in full.
proof fn lemma_declension_input_shape(p: Params)
    ensures
        declension_input_shape(p) == schema_ok(declension_input_schema(), p),
{
    let s = declension_input_schema();
    if schema_ok(s, p) {
        assert(field_ok(fields_of(p), s[0].0, s[0].1));
        assert(field_ok(fields_of(p), s[1].0, s[1].1));
        assert(field_ok(fields_of(p), s[2].0, s[2].1));
        assert(field_ok(fields_of(p), s[3].0, s[3].1));
    }
    if declension_input_shape(p) {
        assert forall|i: int| 0 <= i < s.len() implies field_ok(fields_of(p), #[trigger] s[i].0, s[i].1) by {
            if i == 0 {
                assert(field_ok(fields_of(p), "stem"@, FieldKind::Required));
            } else if i == 1 {
                assert(field_ok(fields_of(p), "stem_type"@, FieldKind::Required));
            } else if i == 2 {
                assert(field_ok(fields_of(p), "case"@, FieldKind::Required));
            } else if i == 3 {
                assert(field_ok(fields_of(p), "number"@, FieldKind::Required));
            }
        }
    }
}

/// Checks that parameters have the shape of the input of a declension.
pub fn check_declension_input_shape(p: &Params) -> (r: Result<(), String>)
    ensures
        r is Ok == declension_input_shape(*p),
        r matches Err(m) ==> m@ == declension_input_error(*p),
{
    proof {
        lemma_declension_input_shape(*p);
        lemma_params_error_none("DeclensionInput"@, declension_input_schema(), *p);
    }
    check_params("DeclensionInput", &declension_input_fields(), p)
}

/// The fields of the record `ConjugationInput` and how each is read, in its order.
pub open spec fn conjugation_input_schema() -> Schema {
    seq![
        ("dhatu"@, FieldKind::Required),
        ("gana"@, FieldKind::Required),
        ("lakara"@, FieldKind::Required),
        ("pada"@, FieldKind::Required),
        ("purusha"@, FieldKind::Required),
        ("vacana"@, FieldKind::Required),
    ]
}

/// The fields of the record `ConjugationInput`, for reading.
fn conjugation_input_fields() -> (r: Vec<(&'static str, FieldKind)>)
    ensures
        schema_view(r@) == conjugation_input_schema(),
{
    let r = vec![
        ("dhatu", FieldKind::Required),
        ("gana", FieldKind::Required),
        ("lakara", FieldKind::Required),
        ("pada", FieldKind::Required),
        ("purusha", FieldKind::Required),
        ("vacana", FieldKind::Required),
    ];
    assert(schema_view(r@) =~= conjugation_input_schema());
    r
}

/// The input of a conjugation.
pub open spec fn conjugation_input_shape(p: Params) -> bool {
    &&& p is Object
    &&& field_ok(fields_of(p), "dhatu"@, FieldKind::Required)
    &&& field_ok(fields_of(p), "gana"@, FieldKind::Required)
    &&& field_ok(fields_of(p), "lakara"@, FieldKind::Required)
    &&& field_ok(fields_of(p), "pada"@, FieldKind::Required)
    &&& field_ok(fields_of(p), "purusha"@, FieldKind::Required)
    &&& field_ok(fields_of(p), "vacana"@, FieldKind::Required)
    &&& no_duplicate_known(fields_of(p), conjugation_input_schema())
}

/// The first reason parameters cannot be read as `ConjugationInput` (empty when there is none).
pub open spec fn conjugation_input_error(p: Params) -> Seq<char> {
    params_error_text("ConjugationInput"@, conjugation_input_schema(), p)
}

/// The shape is the record's schema read in full.
proof fn lemma_conjugation_input_shape(p: Params)
    ensures
        conjugation_input_shape(p) == schema_ok(conjugation_input_schema(), p),
{
    let s = conjugation_input_schema();
    if schema_ok(s, p) {
        assert(field_ok(fields_of(p), s[0].0, s[0].1));
        assert(field_ok(fields_of(p), s[1].0, s[1].1));
        assert(field_ok(fields_of(p), s[2].0, s[2].1));
        assert(field_ok(fields_of(p), s[3].0, s[3].1));
        assert(field_ok(fields_of(p), s[4].0, s[4].1));
        assert(field_ok(fields_of(p), s[5].0, s[5].1));
    }
    if conjugation_input_shape(p) {
        assert forall|i: int| 0 <= i < s.len() implies field_ok(fields_of(p), #[trigger] s[i].0, s[i].1) by {
            if i == 0 {
                assert(field_ok(fields_of(p), "dhatu"@, FieldKind::Required));
            } else if i == 1 {
                assert(field_ok(fields_of(p), "gana"@, FieldKind::Required));
            } else if i == 2 {
                assert(field_ok(fields_of(p), "lakara"@, FieldKind::Required));
            } else if i == 3 {
                assert(field_ok(fields_of(p), "pada"@, FieldKind::Required));
            } else if i == 4 {
                assert(field_ok(fields_of(p), "purusha"@, FieldKind::Required));
            } else if i == 5 {
                assert(field_ok(fields_of(p), "vacana"@, FieldKind::Required));
            }
        }
    }
}

/// Checks that parameters have the shape of the input of a conjugation.
pub fn check_conjugation_input_shape(p: &Params) -> (r: Result<(), String>)
    ensures
        r is Ok == conjugation_input_shape(*p),
        r matches Err(m) ==> m@ == conjugation_input_error(*p),
{
    proof {
        lemma_conjugation_input_shape(*p);
        lemma_params_error_none("ConjugationInput"@, conjugation_input_schema(), *p);
    }
    check_params("ConjugationInput", &conjugation_input_fields(), p)
}

/// The message of the first reason parameters cannot be read as a pratyaya
/// rule by the consistency checker (empty when there is none).
pub open spec fn pratyaya_check_error(p: Params) -> Seq<char> {
    params_error_text("PratyayaParams"@, pratyaya_schema(), p)
}

/// Checks that parameters have the shape of a pratyaya rule, reporting as the
/// consistency checker does.
pub fn check_pratyaya_check_shape(p: &Params) -> (r: Result<(), String>)
    ensures
        r is Ok == pratyaya_shape(*p),
        r matches Err(m) ==> m@ == pratyaya_check_error(*p),
{
    proof {
        lemma_pratyaya_shape(*p);
        lemma_params_error_none("PratyayaParams"@, pratyaya_schema(), *p);
    }
    check_params("PratyayaParams", &pratyaya_fields(), p)
}

} // verus!
