//! Rendering a record of a schema, and the records it nests, as an example
//! document.
use vstd::prelude::*;
use vstd::string::*;
use crate::attrs::{
    meta_of, parse_attrs, Attr, AttrMeta, ConfigError, DefaultModel, DefaultSource, ErrorKind,
    ErrorModel, MetaModel, NestingFormat, NestingType, config_error, error_of, locate, located,
};
use crate::field::{
    child_prefix, commented, doc_block, format_of, label_of, parse_field, plan_of,
    push_doc_string, FieldDecl, FieldModel, ParsedField,
};
use crate::text::{chars_of, push_str, starts_with};

verus! {

/// A record type, as schema introspection hands it over.
#[derive(Debug)]
pub struct RecordDecl {
    pub name: String,
    pub attrs: Vec<Attr>,
    pub fields: Vec<FieldDecl>,
}

/// The record types that a document may draw on.
#[derive(Debug)]
pub struct Schema {
    pub records: Vec<RecordDecl>,
}

/// The values of default expressions, as the host evaluates them: each entry
/// pairs an expression (`Config::default().port`, `default_port()`,
/// `usize::default()`) with the debug text of its value.
pub type DefaultValues = Vec<(String, String)>;

/// The index of the first record named `name`.
pub open spec fn record_index(records: Seq<RecordDecl>, name: Seq<char>) -> Option<int>
    decreases records.len(),
{
    if records.len() == 0 {
        None
    } else {
        match record_index(records.drop_last(), name) {
            Some(i) => Some(i),
            None => if records.last().name@ == name {
                Some(records.len() - 1)
            } else {
                None
            },
        }
    }
}

/// The value of the first entry for the expression `expr`.
pub open spec fn value_of(values: Seq<(String, String)>, expr: Seq<char>) -> Option<Seq<char>>
    decreases values.len(),
{
    if values.len() == 0 {
        None
    } else {
        match value_of(values.drop_last(), expr) {
            Some(v) => Some(v),
            None => if values.last().0@ == expr {
                Some(values.last().1@)
            } else {
                None
            },
        }
    }
}

/// The ` = value` line end of a field whose value is that of `expr`; an
/// enum's value is put in quotes.
pub open spec fn evaluated(expr: Seq<char>, is_enum: bool, values: Seq<(String, String)>) -> Result<Seq<char>, ErrorModel> {
    match value_of(values, expr) {
        Some(v) => Ok(
            " = "@ + (if is_enum {
                "\""@ + v + "\""@
            } else {
                v
            }) + "\n"@,
        ),
        None => Err(error_of(ErrorKind::MissingValue, expr)),
    }
}

/// The expression `ty::default()` followed by `suffix`.
pub open spec fn type_default_expr(ty: Seq<char>, suffix: Seq<char>) -> Seq<char> {
    ty + "::default()"@ + suffix
}

/// The expression `func()` followed by `suffix`.
pub open spec fn call_expr(func: Seq<char>, suffix: Seq<char>) -> Seq<char> {
    func + "()"@ + suffix
}

/// The ` = value` line end of a leaf field `f`, declared as `ident` in the
/// record `record` whose own default source is `record_default`.
pub open spec fn leaf_value(
    record: Seq<char>,
    record_default: Option<DefaultModel>,
    f: FieldModel,
    ident: Seq<char>,
    values: Seq<(String, String)>,
) -> Result<Seq<char>, ErrorModel> {
    match f.default {
        DefaultModel::Value(d) => Ok(" = "@ + d + "\n"@),
        DefaultModel::TypeDefault(None) => match record_default {
            Some(DefaultModel::TypeDefault(None)) => evaluated(
                type_default_expr(record, "."@ + ident),
                f.is_enum,
                values,
            ),
            Some(DefaultModel::Function(func)) => evaluated(
                call_expr(func, "."@ + ident),
                f.is_enum,
                values,
            ),
            Some(DefaultModel::Value(_)) => Err(error_of(ErrorKind::RecordDefaultValue, record)),
            _ => Ok(" = \"\"\n"@),
        },
        DefaultModel::TypeDefault(Some(t)) => evaluated(
            type_default_expr(t, Seq::empty()),
            f.is_enum,
            values,
        ),
        DefaultModel::Function(func) => evaluated(call_expr(func, Seq::empty()), f.is_enum, values),
    }
}

/// The default expression whose value a leaf field `f`, declared as `ident`
/// in the record `record` whose own default source is `record_default`, is
/// rendered with; `None` when its value is literal text.
pub open spec fn value_expr(
    record: Seq<char>,
    record_default: Option<DefaultModel>,
    f: FieldModel,
    ident: Seq<char>,
) -> Option<Seq<char>> {
    match f.default {
        DefaultModel::Value(_) => None,
        DefaultModel::TypeDefault(None) => match record_default {
            Some(DefaultModel::TypeDefault(None)) => Some(type_default_expr(record, "."@ + ident)),
            Some(DefaultModel::Function(func)) => Some(call_expr(func, "."@ + ident)),
            _ => None,
        },
        DefaultModel::TypeDefault(Some(t)) => Some(type_default_expr(t, Seq::empty())),
        DefaultModel::Function(func) => Some(call_expr(func, Seq::empty())),
    }
}

/// The text of a leaf field: its comment lines, then `key = value` (commented
/// out when optional), then a blank line.
pub open spec fn leaf_text(f: FieldModel, prefix: Seq<char>, value: Seq<char>) -> Seq<char> {
    doc_block(f.docs) + (if f.optional {
        "# "@
    } else {
        Seq::empty()
    }) + prefix + f.name + value + "\n"@
}

/// Whether a field's text goes to the second part, after all others: it is
/// nested under a section header of its own.
pub open spec fn in_section(f: FieldModel) -> bool {
    match f.nesting_format {
        Some(NestingFormat::Section(NestingType::Record)) => !f.flatten,
        Some(NestingFormat::Section(_)) => true,
        _ => false,
    }
}

/// The header line of a record at table path `label`: `format` around the
/// path, or nothing when `format` opens with nothing.
pub open spec fn header(label: Seq<char>, format: (Seq<char>, Seq<char>)) -> Seq<char> {
    if format.0.len() == 0 {
        Seq::empty()
    } else {
        format.0 + label + format.1
    }
}

/// The effect of a nested field `f`, in a record at table path `label`
/// rendered under key prefix `prefix`, on the two parts `acc` of the record's
/// text. The nested record is rendered under `child_prefix` and, when the
/// field or the record is commented out, with a commented header. When the
/// field has a section header of its own, its comment lines and all of the
/// nested record's text go to the second part; otherwise its comment lines
/// and the nested record's first part go to the first part, and the nested
/// record's sections to the second.
pub open spec fn nested_effect(
    schema: Seq<RecordDecl>,
    label: Seq<char>,
    prefix: Seq<char>,
    f: FieldModel,
    values: Seq<(String, String)>,
    fuel: nat,
    acc: (Seq<char>, Seq<char>),
) -> Result<(Seq<char>, Seq<char>), ErrorModel>
    decreases fuel, 0int, 0int,
{
    match f.ty {
        None => Err(error_of(ErrorKind::NestingNotOnRecord, f.name)),
        Some(t) => match label_of(f, label) {
            Err(e) => Err(e),
            Ok(l) => if fuel == 0 {
                Err(error_of(ErrorKind::NestingCycle, t))
            } else {
                match record_parts(
                    schema,
                    t,
                    l,
                    format_of(f, commented(prefix)),
                    child_prefix(f, prefix),
                    values,
                    (fuel - 1) as nat,
                ) {
                    Err(e) => Err(e),
                    Ok((p0, p1)) => if in_section(f) {
                        Ok((acc.0, acc.1 + doc_block(f.docs) + p0 + p1))
                    } else {
                        Ok((acc.0 + doc_block(f.docs) + p0, acc.1 + p1))
                    },
                }
            },
        },
    }
}

/// The effect of field `i` of `rec` on the two parts `acc` of the record's
/// text (see `fields_text`), before the error it may raise is placed.
pub open spec fn field_effect(
    schema: Seq<RecordDecl>,
    rec: RecordDecl,
    m: MetaModel,
    label: Seq<char>,
    prefix: Seq<char>,
    values: Seq<(String, String)>,
    fuel: nat,
    i: int,
    acc: (Seq<char>, Seq<char>),
) -> Result<(Seq<char>, Seq<char>), ErrorModel>
    decreases fuel, 0int, 3 * i + 1,
{
    if 0 <= i < rec.fields.len() {
        let decl = rec.fields@[i];
        match plan_of(m.default_source is Some, decl, m.rename_rule) {
            Err(e) => Err(e),
            Ok(f) => if f.skip {
                Ok(acc)
            } else if f.nesting_format is Some {
                nested_effect(schema, label, prefix, f, values, fuel, acc)
            } else {
                match leaf_value(rec.name@, m.default_source, f, decl.name@, values) {
                    Err(e) => Err(e),
                    Ok(v) => Ok((acc.0 + leaf_text(f, prefix, v), acc.1)),
                }
            },
        }
    } else {
        Ok(acc)
    }
}

/// The effect of field `i` of `rec` on the two parts `acc` of the record's
/// text; an error is placed in that field.
pub open spec fn field_step(
    schema: Seq<RecordDecl>,
    rec: RecordDecl,
    m: MetaModel,
    label: Seq<char>,
    prefix: Seq<char>,
    values: Seq<(String, String)>,
    fuel: nat,
    i: int,
    acc: (Seq<char>, Seq<char>),
) -> Result<(Seq<char>, Seq<char>), ErrorModel>
    decreases fuel, 0int, 3 * i + 2,
{
    if 0 <= i < rec.fields.len() {
        match field_effect(schema, rec, m, label, prefix, values, fuel, i, acc) {
            Ok(r) => Ok(r),
            Err(e) => Err(located(e, rec.name@, rec.fields@[i].name@)),
        }
    } else {
        Ok(acc)
    }
}

/// The text of the first `n` fields of `rec` at table path `label`, rendered
/// under key prefix `prefix`, in two parts: what stands under the record's
/// own header, and the sections that follow it; each in declaration order,
/// skipped fields giving nothing. `fuel` bounds the depth of nesting below
/// this record.
pub open spec fn fields_text(
    schema: Seq<RecordDecl>,
    rec: RecordDecl,
    m: MetaModel,
    label: Seq<char>,
    prefix: Seq<char>,
    values: Seq<(String, String)>,
    fuel: nat,
    n: int,
) -> Result<(Seq<char>, Seq<char>), ErrorModel>
    decreases fuel, 0int, 3 * n,
{
    if n <= 0 {
        Ok((Seq::empty(), Seq::empty()))
    } else {
        match fields_text(schema, rec, m, label, prefix, values, fuel, n - 1) {
            Err(e) => Err(e),
            Ok(acc) => field_step(schema, rec, m, label, prefix, values, fuel, n - 1, acc),
        }
    }
}

/// The text of the record named `name` at table path `label`, in two parts:
/// its comment lines, its header (see `header`) and the fields that stand
/// under it; then the sections that follow. Each key line carries `prefix`
/// before the key. An error in the record's own attributes is placed in the
/// record.
pub open spec fn record_parts(
    schema: Seq<RecordDecl>,
    name: Seq<char>,
    label: Seq<char>,
    format: (Seq<char>, Seq<char>),
    prefix: Seq<char>,
    values: Seq<(String, String)>,
    fuel: nat,
) -> Result<(Seq<char>, Seq<char>), ErrorModel>
    decreases fuel, 1int, 0int,
{
    match record_index(schema, name) {
        None => Err(error_of(ErrorKind::UnknownRecord, name)),
        Some(i) => {
            let rec = schema[i];
            match meta_of(rec.attrs@) {
                Err(e) => Err(located(e, rec.name@, Seq::empty())),
                Ok(m) => match fields_text(
                    schema,
                    rec,
                    m,
                    label,
                    prefix,
                    values,
                    fuel,
                    rec.fields.len() as int,
                ) {
                    Err(e) => Err(e),
                    Ok((b1, b2)) => Ok((doc_block(m.docs) + header(label, format) + b1, b2)),
                },
            }
        },
    }
}

/// The example text of the record named `name` (see `record_parts`): its two
/// parts, one after the other.
pub open spec fn record_text(
    schema: Seq<RecordDecl>,
    name: Seq<char>,
    label: Seq<char>,
    format: (Seq<char>, Seq<char>),
    prefix: Seq<char>,
    values: Seq<(String, String)>,
    fuel: nat,
) -> Result<Seq<char>, ErrorModel> {
    match record_parts(schema, name, label, format, prefix, values, fuel) {
        Ok((a, b)) => Ok(a + b),
        Err(e) => Err(e),
    }
}

/// The example document of the record named `name`.
pub open spec fn document(schema: Seq<RecordDecl>, name: Seq<char>, values: Seq<(String, String)>) -> Result<Seq<char>, ErrorModel> {
    record_text(schema, name, Seq::empty(), (Seq::empty(), Seq::empty()), Seq::empty(), values, schema.len())
}

pub open spec fn text_result(r: Result<String, ConfigError>) -> Result<Seq<char>, ErrorModel> {
    match r {
        Ok(s) => Ok(s@),
        Err(e) => Err(e@),
    }
}

fn find_record(records: &Vec<RecordDecl>, name: &String) -> (r: Option<usize>)
    ensures
        r matches Some(i) ==> i < records.len() && record_index(records@, name@) == Some(i as int),
        r is None ==> record_index(records@, name@) is None,
{
    let mut i: usize = 0;
    while i < records.len()
        invariant
            i <= records.len(),
            record_index(records@.subrange(0, i as int), name@) is None,
        decreases records.len() - i,
    {
        assert(records@.subrange(0, i as int + 1).drop_last() =~= records@.subrange(0, i as int));
        if records[i].name == *name {
            proof {
                lemma_record_index_found(records@, name@, i as int);
            }
            return Some(i);
        }
        i = i + 1;
    }
    assert(records@.subrange(0, records.len() as int) =~= records@);
    None
}

proof fn lemma_record_index_found(records: Seq<RecordDecl>, name: Seq<char>, i: int)
    requires
        0 <= i < records.len(),
        record_index(records.subrange(0, i + 1), name) == Some(i),
    ensures
        record_index(records, name) == Some(i),
    decreases records.len() - i,
{
    if i + 1 < records.len() {
        let s = records.drop_last();
        assert(s.subrange(0, i + 1) =~= records.subrange(0, i + 1));
        lemma_record_index_found(s, name, i);
    } else {
        assert(records.subrange(0, i + 1) =~= records);
    }
}

proof fn lemma_value_found(values: Seq<(String, String)>, expr: Seq<char>, i: int)
    requires
        0 <= i < values.len(),
        value_of(values.subrange(0, i + 1), expr) == Some(values[i].1@),
    ensures
        value_of(values, expr) == Some(values[i].1@),
    decreases values.len() - i,
{
    if i + 1 < values.len() {
        let s = values.drop_last();
        assert(s.subrange(0, i + 1) =~= values.subrange(0, i + 1));
        lemma_value_found(s, expr, i);
    } else {
        assert(values.subrange(0, i + 1) =~= values);
    }
}

fn find_value(values: &DefaultValues, expr: &String) -> (r: Option<usize>)
    ensures
        match value_of(values@, expr@) {
            Some(v) => r matches Some(i) && i < values.len() && values@[i as int].1@ == v,
            None => r is None,
        },
{
    let mut i: usize = 0;
    while i < values.len()
        invariant
            i <= values.len(),
            value_of(values@.subrange(0, i as int), expr@) is None,
        decreases values.len() - i,
    {
        assert(values@.subrange(0, i as int + 1).drop_last() =~= values@.subrange(0, i as int));
        if values[i].0 == *expr {
            proof {
                lemma_value_found(values@, expr@, i as int);
            }
            return Some(i);
        }
        i = i + 1;
    }
    assert(values@.subrange(0, values.len() as int) =~= values@);
    None
}

fn push_evaluated(
    field_example: &mut String,
    is_enum: bool,
    expr: String,
    values: &DefaultValues,
) -> (r: Result<(), ConfigError>)
    ensures
        match evaluated(expr@, is_enum, values@) {
            Ok(t) => r is Ok && final(field_example)@ == old(field_example)@ + t,
            Err(e) => r matches Err(e1) && e1@ == e,
        },
{
    match find_value(values, &expr) {
        Some(i) => {
            push_str(field_example, " = ");
            if is_enum {
                push_str(field_example, "\"");
            }
            push_str(field_example, values[i].1.as_str());
            if is_enum {
                push_str(field_example, "\"");
            }
            push_str(field_example, "\n");
            Ok(())
        },
        None => Err(config_error(ErrorKind::MissingValue, &chars_of(expr.as_str()))),
    }
}

fn with_suffix(mut e: String, suffix: Option<String>) -> (r: String)
    ensures
        r@ == e@ + match suffix {
            Some(s) => s@,
            None => Seq::empty(),
        },
{
    match suffix {
        Some(s) => {
            push_str(&mut e, s.as_str());
        },
        None => {
            assert(e@ =~= e@ + Seq::<char>::empty());
        },
    }
    e
}

/// Appends the ` = value` line end of a field whose value is the default of
/// the type `type_ident`, followed by `suffix` (a field projection).
pub fn handle_default_fn_source(
    field_example: &mut String,
    is_enum: bool,
    type_ident: String,
    suffix: Option<String>,
    values: &DefaultValues,
) -> (r: Result<(), ConfigError>)
    ensures
        ({
            let expr = type_default_expr(
                type_ident@,
                match suffix {
                    Some(s) => s@,
                    None => Seq::empty(),
                },
            );
            match evaluated(expr, is_enum, values@) {
                Ok(t) => r is Ok && final(field_example)@ == old(field_example)@ + t,
                Err(e) => r matches Err(e1) && e1@ == e,
            }
        }),
{
    let mut e = type_ident;
    push_str(&mut e, "::default()");
    let expr = with_suffix(e, suffix);
    push_evaluated(field_example, is_enum, expr, values)
}

/// Appends the ` = value` line end of a field whose value is the result of
/// calling `fn_str`, followed by `suffix` (a field projection).
pub fn handle_serde_default_fn_source(
    field_example: &mut String,
    is_enum: bool,
    fn_str: &String,
    suffix: Option<String>,
    values: &DefaultValues,
) -> (r: Result<(), ConfigError>)
    ensures
        ({
            let expr = call_expr(
                fn_str@,
                match suffix {
                    Some(s) => s@,
                    None => Seq::empty(),
                },
            );
            match evaluated(expr, is_enum, values@) {
                Ok(t) => r is Ok && final(field_example)@ == old(field_example)@ + t,
                Err(e) => r matches Err(e1) && e1@ == e,
            }
        }),
{
    let mut e = fn_str.clone();
    push_str(&mut e, "()");
    let expr = with_suffix(e, suffix);
    push_evaluated(field_example, is_enum, expr, values)
}

proof fn lemma_fields_stop(
    schema: Seq<RecordDecl>,
    rec: RecordDecl,
    m: MetaModel,
    label: Seq<char>,
    prefix: Seq<char>,
    values: Seq<(String, String)>,
    fuel: nat,
    i: int,
)
    requires
        0 <= i <= rec.fields.len(),
        fields_text(schema, rec, m, label, prefix, values, fuel, i) is Err,
    ensures
        fields_text(schema, rec, m, label, prefix, values, fuel, rec.fields.len() as int)
            == fields_text(schema, rec, m, label, prefix, values, fuel, i),
    decreases rec.fields.len() - i,
{
    if i < rec.fields.len() {
        lemma_fields_stop(schema, rec, m, label, prefix, values, fuel, i + 1);
    }
}

fn push_leaf_value(
    b1: &mut String,
    rec: &RecordDecl,
    meta: &AttrMeta,
    decl: &FieldDecl,
    f: &ParsedField,
    values: &DefaultValues,
) -> (r: Result<(), ConfigError>)
    ensures
        match leaf_value(rec.name@, meta@.default_source, f@, decl.name@, values@) {
            Ok(v) => r is Ok && final(b1)@ == old(b1)@ + v,
            Err(e) => r matches Err(e1) && e1@ == e,
        },
{
    match &f.default {
        DefaultSource::DefaultValue(d) => {
            push_str(b1, " = ");
            push_str(b1, d.as_str());
            push_str(b1, "\n");
            assert(b1@ =~= old(b1)@ + (" = "@ + d@ + "\n"@));
            Ok(())
        },
        DefaultSource::DefaultFn(None) => match &meta.default_source {
            Some(DefaultSource::DefaultFn(None)) => {
                let mut suffix = String::from_str(".");
                push_str(&mut suffix, decl.name.as_str());
                handle_default_fn_source(b1, f.is_enum, rec.name.clone(), Some(suffix), values)
            },
            Some(DefaultSource::SerdeDefaultFn(func)) => {
                let mut suffix = String::from_str(".");
                push_str(&mut suffix, decl.name.as_str());
                handle_serde_default_fn_source(b1, f.is_enum, func, Some(suffix), values)
            },
            Some(DefaultSource::DefaultValue(_)) => {
                Err(config_error(ErrorKind::RecordDefaultValue, &chars_of(rec.name.as_str())))
            },
            _ => {
                push_str(b1, " = \"\"\n");
                Ok(())
            },
        },
        DefaultSource::DefaultFn(Some(ty)) => {
            handle_default_fn_source(b1, f.is_enum, ty.clone(), None, values)
        },
        DefaultSource::SerdeDefaultFn(func) => {
            handle_serde_default_fn_source(b1, f.is_enum, func, None, values)
        },
    }
}

/// Renders the nested field `f`, in a record at table path `label` rendered
/// under key prefix `prefix`, into the two parts of the record's text (see
/// `nested_effect`).
fn render_nested(
    schema: &Schema,
    label: &str,
    prefix: &str,
    f: &ParsedField,
    values: &DefaultValues,
    fuel: usize,
    b1: &mut String,
    b2: &mut String,
) -> (r: Result<(), ConfigError>)
    requires
        f.nesting_format is Some,
    ensures
        match nested_effect(
            schema.records@,
            label@,
            prefix@,
            f@,
            values@,
            fuel as nat,
            (old(b1)@, old(b2)@),
        ) {
            Ok((x, y)) => r is Ok && final(b1)@ == x && final(b2)@ == y,
            Err(e) => r matches Err(e1) && e1@ == e,
        },
    decreases fuel, 0int,
{
    let t = match &f.ty {
        Some(t) => t,
        None => return Err(config_error(ErrorKind::NestingNotOnRecord, &chars_of(f.name.as_str()))),
    };
    let path = match f.label(label) {
        Ok(l) => l,
        Err(e) => return Err(e),
    };
    if fuel == 0 {
        return Err(config_error(ErrorKind::NestingCycle, &chars_of(t.as_str())));
    }
    let in_comment = starts_with(&chars_of(prefix), &chars_of("# "));
    let (open, close) = f.label_format(in_comment);
    let p = f.nested_prefix(prefix);
    let (p0, p1) = match render_parts(
        schema,
        t,
        path.as_str(),
        (open.as_str(), close.as_str()),
        p.as_str(),
        values,
        fuel - 1,
    ) {
        Ok(b) => b,
        Err(e) => return Err(e),
    };
    let sectioned = match f.nesting_format {
        Some(NestingFormat::Section(NestingType::Record)) => !f.flatten,
        Some(NestingFormat::Section(_)) => true,
        _ => false,
    };
    if sectioned {
        f.push_doc_to_string(b2);
        push_str(b2, p0.as_str());
        push_str(b2, p1.as_str());
        assert(b2@ =~= old(b2)@ + doc_block(f@.docs) + p0@ + p1@);
    } else {
        f.push_doc_to_string(b1);
        push_str(b1, p0.as_str());
        push_str(b2, p1.as_str());
        assert(b1@ =~= old(b1)@ + doc_block(f@.docs) + p0@);
    }
    Ok(())
}

/// Renders the leaf field `f`, declared as `decl` in `rec`, into the first
/// part of the record's text.
fn render_leaf(
    rec: &RecordDecl,
    meta: &AttrMeta,
    decl: &FieldDecl,
    f: &ParsedField,
    prefix: &str,
    values: &DefaultValues,
    b1: &mut String,
) -> (r: Result<(), ConfigError>)
    ensures
        match leaf_value(rec.name@, meta@.default_source, f@, decl.name@, values@) {
            Ok(v) => r is Ok && final(b1)@ == old(b1)@ + leaf_text(f@, prefix@, v),
            Err(e) => r matches Err(e1) && e1@ == e,
        },
{
    f.push_doc_to_string(b1);
    if f.optional {
        push_str(b1, "# ");
    }
    push_str(b1, prefix);
    push_str(b1, f.name.as_str());
    let ghost head = b1@;
    match push_leaf_value(b1, rec, meta, decl, f, values) {
        Ok(()) => {},
        Err(e) => return Err(e),
    }
    let ghost v = b1@.subrange(head.len() as int, b1@.len() as int);
    assert(b1@ =~= head + v);
    push_str(b1, "\n");
    assert(b1@ =~= old(b1)@ + leaf_text(f@, prefix@, v));
    Ok(())
}

/// Renders field `i` of `rec` into the two parts of the record's text (see
/// `field_effect`).
fn render_field_effect(
    schema: &Schema,
    rec: &RecordDecl,
    meta: &AttrMeta,
    i: usize,
    label: &str,
    prefix: &str,
    values: &DefaultValues,
    fuel: usize,
    b1: &mut String,
    b2: &mut String,
) -> (r: Result<(), ConfigError>)
    requires
        i < rec.fields.len(),
    ensures
        match field_effect(
            schema.records@,
            *rec,
            meta@,
            label@,
            prefix@,
            values@,
            fuel as nat,
            i as int,
            (old(b1)@, old(b2)@),
        ) {
            Ok((x, y)) => r is Ok && final(b1)@ == x && final(b2)@ == y,
            Err(e) => r matches Err(e1) && e1@ == e,
        },
    decreases fuel, 1int,
{
    let decl = &rec.fields[i];
    let f = match parse_field(meta.default_source.as_ref(), decl, meta.rename_rule) {
        Ok(f) => f,
        Err(e) => return Err(e),
    };
    if f.skip {
        return Ok(());
    }
    if f.nesting_format.is_some() {
        render_nested(schema, label, prefix, &f, values, fuel, b1, b2)
    } else {
        render_leaf(rec, meta, decl, &f, prefix, values, b1)
    }
}

/// Renders field `i` of `rec`, a record at table path `label`, into the two
/// parts of the record's text (see `field_step`).
fn render_field(
    schema: &Schema,
    rec: &RecordDecl,
    meta: &AttrMeta,
    i: usize,
    label: &str,
    prefix: &str,
    values: &DefaultValues,
    fuel: usize,
    b1: &mut String,
    b2: &mut String,
) -> (r: Result<(), ConfigError>)
    requires
        i < rec.fields.len(),
    ensures
        match field_step(
            schema.records@,
            *rec,
            meta@,
            label@,
            prefix@,
            values@,
            fuel as nat,
            i as int,
            (old(b1)@, old(b2)@),
        ) {
            Ok((x, y)) => r is Ok && final(b1)@ == x && final(b2)@ == y,
            Err(e) => r matches Err(e1) && e1@ == e,
        },
    decreases fuel, 2int,
{
    match render_field_effect(schema, rec, meta, i, label, prefix, values, fuel, b1, b2) {
        Ok(()) => Ok(()),
        Err(e) => Err(locate(e, &rec.name, &rec.fields[i].name)),
    }
}

/// Renders the record named `name` in two parts (see `record_parts`).
fn render_parts(
    schema: &Schema,
    name: &String,
    label: &str,
    label_format: (&str, &str),
    prefix: &str,
    values: &DefaultValues,
    fuel: usize,
) -> (r: Result<(String, String), ConfigError>)
    ensures
        match record_parts(
            schema.records@,
            name@,
            label@,
            (label_format.0@, label_format.1@),
            prefix@,
            values@,
            fuel as nat,
        ) {
            Ok((x, y)) => r matches Ok((a, b)) && a@ == x && b@ == y,
            Err(e) => r matches Err(e1) && e1@ == e,
        },
    decreases fuel, 3int,
{
    let idx = match find_record(&schema.records, name) {
        Some(i) => i,
        None => return Err(config_error(ErrorKind::UnknownRecord, &chars_of(name.as_str()))),
    };
    let rec = &schema.records[idx];
    assert(*rec == schema.records@[idx as int]);
    let meta = match parse_attrs(&rec.attrs) {
        Ok(m) => m,
        Err(e) => return Err(locate(e, &rec.name, &String::new())),
    };
    let ghost records = schema.records@;
    let ghost m = meta@;
    let mut b1 = String::new();
    let mut b2 = String::new();
    let mut i: usize = 0;
    while i < rec.fields.len()
        invariant
            i <= rec.fields.len(),
            records == schema.records@,
            m == meta@,
            idx < records.len(),
            *rec == records[idx as int],
            record_index(records, name@) == Some(idx as int),
            meta_of(rec.attrs@) == Ok::<MetaModel, ErrorModel>(m),
            fields_text(records, *rec, m, label@, prefix@, values@, fuel as nat, i as int) == Ok::<
                (Seq<char>, Seq<char>),
                ErrorModel,
            >((b1@, b2@)),
        decreases rec.fields.len() - i,
    {
        let ghost acc = (b1@, b2@);
        match render_field(schema, rec, &meta, i, label, prefix, values, fuel, &mut b1, &mut b2) {
            Ok(()) => {},
            Err(e) => {
                assert(fields_text(records, *rec, m, label@, prefix@, values@, fuel as nat, i as int + 1)
                    == field_step(records, *rec, m, label@, prefix@, values@, fuel as nat, i as int, acc));
                proof {
                    lemma_fields_stop(records, *rec, m, label@, prefix@, values@, fuel as nat, i as int + 1);
                }
                return Err(e);
            },
        }
        i = i + 1;
    }
    let mut out = String::new();
    push_doc_string(&mut out, &meta.docs);
    if label_format.0.unicode_len() > 0 {
        push_str(&mut out, label_format.0);
        push_str(&mut out, label);
        push_str(&mut out, label_format.1);
    }
    push_str(&mut out, b1.as_str());
    assert(out@ =~= doc_block(m.docs) + header(label@, (label_format.0@, label_format.1@)) + b1@);
    Ok((out, b2))
}

/// Renders the record named `name` (see `record_text`).
fn render_record(
    schema: &Schema,
    name: &String,
    label: &str,
    label_format: (&str, &str),
    prefix: &str,
    values: &DefaultValues,
    fuel: usize,
) -> (r: Result<String, ConfigError>)
    ensures
        text_result(r) == record_text(
            schema.records@,
            name@,
            label@,
            (label_format.0@, label_format.1@),
            prefix@,
            values@,
            fuel as nat,
        ),
{
    match render_parts(schema, name, label, label_format, prefix, values, fuel) {
        Ok((mut a, b)) => {
            push_str(&mut a, b.as_str());
            Ok(a)
        },
        Err(e) => Err(e),
    }
}

/// The example document of the record named `name` in `schema`: its comment
/// lines, then its fields, those with a section header of their own last.
/// Nested records are rendered from `schema`; default expressions take their
/// values from `values`. A configuration error, a nested record missing from
/// `schema`, a record that nests itself, or a default expression without a
/// value aborts it.
pub fn toml_example(schema: &Schema, name: &str, values: &DefaultValues) -> (r: Result<
    String,
    ConfigError,
>)
    ensures
        text_result(r) == document(schema.records@, name@, values@),
{
    proof {
        reveal_strlit("");
    }
    assert(""@ =~= Seq::<char>::empty());
    let n = String::from_str(name);
    render_record(schema, &n, "", ("", ""), "", values, schema.records.len())
}

/// The text of the record named `name` nested at table path `label`: its
/// comment lines, its header (`label_format` around `label`, or none when the
/// format opens with nothing), then its fields, each key line carrying
/// `prefix` before the key.
pub fn toml_example_with_prefix(
    schema: &Schema,
    name: &str,
    label: &str,
    label_format: (&str, &str),
    prefix: &str,
    values: &DefaultValues,
) -> (r: Result<String, ConfigError>)
    ensures
        text_result(r) == record_text(
            schema.records@,
            name@,
            label@,
            (label_format.0@, label_format.1@),
            prefix@,
            values@,
            schema.records@.len(),
        ),
{
    let n = String::from_str(name);
    render_record(schema, &n, label, label_format, prefix, values, schema.records.len())
}

/// The default expression whose value the leaf field `f`, declared as
/// `ident` in the record `record`, is rendered with (see `value_expr`): the
/// host evaluates it and supplies the debug text of its value.
pub fn value_expression(
    record: &RecordDecl,
    record_default: Option<&DefaultSource>,
    f: &ParsedField,
    ident: &String,
) -> (r: Option<String>)
    ensures
        r.deep_view() == value_expr(
            record.name@,
            match record_default {
                Some(d) => Some(d@),
                None => None,
            },
            f@,
            ident@,
        ),
{
    proof {
        reveal_strlit("");
    }
    match &f.default {
        DefaultSource::DefaultValue(_) => None,
        DefaultSource::DefaultFn(None) => {
            let mut suffix = String::from_str(".");
            push_str(&mut suffix, ident.as_str());
            match record_default {
                Some(DefaultSource::DefaultFn(None)) => {
                    let mut e = record.name.clone();
                    push_str(&mut e, "::default()");
                    push_str(&mut e, suffix.as_str());
                    Some(e)
                },
                Some(DefaultSource::SerdeDefaultFn(func)) => {
                    let mut e = func.clone();
                    push_str(&mut e, "()");
                    push_str(&mut e, suffix.as_str());
                    Some(e)
                },
                _ => None,
            }
        },
        DefaultSource::DefaultFn(Some(t)) => {
            let mut e = t.clone();
            push_str(&mut e, "::default()");
            assert(e@ =~= type_default_expr(t@, Seq::empty()));
            Some(e)
        },
        DefaultSource::SerdeDefaultFn(func) => {
            let mut e = func.clone();
            push_str(&mut e, "()");
            assert(e@ =~= call_expr(func@, Seq::empty()));
            Some(e)
        },
    }
}

} // verus!
