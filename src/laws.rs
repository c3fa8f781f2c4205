//! Properties of the rendered documents that hold for every schema.
use vstd::prelude::*;
use crate::attrs::{meta_of, DefaultModel, ErrorModel, MetaModel, NestingFormat, NestingType};
use crate::field::{
    child_prefix, commented, doc_block, format_of, joined, key_of, key_path, label_of, plan_of,
    FieldModel,
};
use crate::render::{
    document, evaluated, field_effect, field_step, fields_text, header, in_section, leaf_text,
    leaf_value, nested_effect, record_index, record_parts, record_text, value_of, RecordDecl,
};
use crate::text::has_prefix;

verus! {

/// Rendering is deterministic: the document depends on the schema, the
/// record's name and the supplied values alone, so rendering the same record
/// twice gives the same text (or the same error).
pub proof fn lemma_render_twice(
    schema: Seq<RecordDecl>,
    name: Seq<char>,
    values: Seq<(String, String)>,
    first: Result<Seq<char>, ErrorModel>,
    second: Result<Seq<char>, ErrorModel>,
)
    requires
        first == document(schema, name, values),
        second == document(schema, name, values),
    ensures
        first == second,
{
}

/// `s` holds no line break.
pub open spec fn single_line(s: Seq<char>) -> bool {
    forall|i: int| 0 <= i < s.len() ==> s[i] != '\n'
}

/// Every line of `ss` is a single line.
pub open spec fn all_single_line(ss: Seq<Seq<char>>) -> bool {
    forall|j: int| 0 <= j < ss.len() ==> single_line(#[trigger] ss[j])
}

/// Every non-empty line of `t` starts with `#`: to a TOML reader, `t` is
/// comments only.
#[verifier::opaque]
pub open spec fn commented_out(t: Seq<char>) -> bool {
    forall|i: int|
        0 <= i < t.len() && (i == 0 || t[i - 1] == '\n') && #[trigger] t[i] != '\n' ==> t[i] == '#'
}

/// `t` is empty or ends with a line break.
pub open spec fn ends_line(t: Seq<char>) -> bool {
    t.len() == 0 || t.last() == '\n'
}

/// The texts that the plan of a field puts into the document are single lines.
pub open spec fn plan_single_line(f: FieldModel) -> bool {
    &&& single_line(f.name)
    &&& all_single_line(f.docs)
    &&& (f.default matches DefaultModel::Value(v) ==> single_line(v))
    &&& single_line(key_of(f))
    &&& (f.ty matches Some(t) ==> single_line(t))
}

/// The texts that a schema and the supplied values put into the document
/// (documentation lines, keys, literal and supplied values, names) are
/// single lines.
pub open spec fn single_line_schema(schema: Seq<RecordDecl>, values: Seq<(String, String)>) -> bool {
    &&& forall|j: int| 0 <= j < values.len() ==> single_line(#[trigger] values[j].1@)
    &&& forall|k: int|
        0 <= k < schema.len() ==> match meta_of(#[trigger] schema[k].attrs@) {
            Ok(m) => all_single_line(m.docs) && forall|i: int|
                0 <= i < schema[k].fields.len() ==> match plan_of(
                    m.default_source is Some,
                    #[trigger] schema[k].fields@[i],
                    m.rename_rule,
                ) {
                    Ok(f) => plan_single_line(f),
                    Err(_) => true,
                },
            Err(_) => true,
        }
}

/// A header format that writes a commented single line, or no header.
pub open spec fn commented_format(format: (Seq<char>, Seq<char>)) -> bool {
    format.0.len() == 0 || (format.0[0] == '#' && single_line(format.0) && format.1.len() >= 1
        && format.1.last() == '\n' && single_line(format.1.drop_last()))
}

proof fn lemma_concat(a: Seq<char>, b: Seq<char>)
    ensures
        commented_out(a) && ends_line(a) && commented_out(b) ==> commented_out(a + b),
        ends_line(a) && ends_line(b) ==> ends_line(a + b),
{
    reveal(commented_out);
    let t = a + b;
    if commented_out(a) && ends_line(a) && commented_out(b) {
        assert forall|i: int|
            0 <= i < t.len() && (i == 0 || t[i - 1] == '\n') && #[trigger] t[i] != '\n' implies t[i]
            == '#' by {
            if i < a.len() {
                assert(t[i] == a[i]);
            } else {
                let j = i - a.len();
                assert(t[i] == b[j]);
                if j > 0 {
                    assert(t[i - 1] == b[j - 1]);
                }
            }
        }
    }
}

/// A line starting with `#`, and a blank line, are comments only.
proof fn lemma_line(w: Seq<char>)
    requires
        single_line(w),
        w.len() == 0 || w[0] == '#',
    ensures
        commented_out(w + "\n"@),
        ends_line(w + "\n"@),
{
    reveal_strlit("\n");
    reveal(commented_out);
    let t = w + "\n"@;
    assert forall|i: int|
        0 <= i < t.len() && (i == 0 || t[i - 1] == '\n') && #[trigger] t[i] != '\n' implies t[i]
        == '#' by {
        if i > 0 && i < w.len() {
            assert(t[i - 1] == w[i - 1]);
        }
    }
}

proof fn lemma_doc_block(docs: Seq<Seq<char>>)
    requires
        all_single_line(docs),
    ensures
        commented_out(doc_block(docs)),
        ends_line(doc_block(docs)),
    decreases docs.len(),
{
    if docs.len() > 0 {
        let rest = docs.drop_last();
        assert forall|j: int| 0 <= j < rest.len() implies single_line(#[trigger] rest[j]) by {
            assert(rest[j] == docs[j]);
        }
        lemma_doc_block(rest);
        let d = docs[docs.len() - 1];
        assert(single_line(d));
        reveal_strlit("#");
        assert(single_line("#"@));
        lemma_single_concat("#"@, d);
        let line = "#"@ + d;
        assert(line[0] == '#');
        lemma_line(line);
        assert(doc_block(docs) =~= doc_block(rest) + (line + "\n"@));
        lemma_concat(doc_block(rest), line + "\n"@);
    } else {
        reveal(commented_out);
    }
}

proof fn lemma_single_concat(a: Seq<char>, b: Seq<char>)
    requires
        single_line(a),
        single_line(b),
    ensures
        single_line(a + b),
{
    assert forall|i: int| 0 <= i < (a + b).len() implies (a + b)[i] != '\n' by {
        if i >= a.len() {
            assert((a + b)[i] == b[i - a.len()]);
        }
    }
}

proof fn lemma_value_single_line(values: Seq<(String, String)>, expr: Seq<char>)
    requires
        forall|j: int| 0 <= j < values.len() ==> single_line(#[trigger] values[j].1@),
    ensures
        value_of(values, expr) matches Some(v) ==> single_line(v),
    decreases values.len(),
{
    if values.len() > 0 {
        let s = values.drop_last();
        assert forall|j: int| 0 <= j < s.len() implies single_line(#[trigger] s[j].1@) by {
            assert(s[j] == values[j]);
        }
        lemma_value_single_line(s, expr);
        assert(values.last() == values[values.len() - 1]);
    }
}

/// A line end ` = value` and a line break, with a single-line value.
pub open spec fn line_end(v: Seq<char>) -> bool {
    v.len() >= 1 && v.last() == '\n' && single_line(v.drop_last())
}

proof fn lemma_evaluated_line(expr: Seq<char>, is_enum: bool, values: Seq<(String, String)>)
    requires
        forall|j: int| 0 <= j < values.len() ==> single_line(#[trigger] values[j].1@),
        evaluated(expr, is_enum, values) is Ok,
    ensures
        line_end(evaluated(expr, is_enum, values)->Ok_0),
{
    reveal_strlit(" = ");
    reveal_strlit("\n");
    reveal_strlit("\"");
    lemma_value_single_line(values, expr);
    let w = value_of(values, expr)->Some_0;
    let q = if is_enum {
        "\""@ + w + "\""@
    } else {
        w
    };
    if is_enum {
        lemma_single_concat("\""@, w);
        lemma_single_concat("\""@ + w, "\""@);
    }
    lemma_single_concat(" = "@, q);
    let v = evaluated(expr, is_enum, values)->Ok_0;
    assert(v =~= (" = "@ + q) + "\n"@);
    assert(v.drop_last() =~= " = "@ + q);
}

/// The line end of a leaf is a single line and a line break.
proof fn lemma_leaf_value_line(
    record: Seq<char>,
    record_default: Option<DefaultModel>,
    f: FieldModel,
    ident: Seq<char>,
    values: Seq<(String, String)>,
)
    requires
        forall|j: int| 0 <= j < values.len() ==> single_line(#[trigger] values[j].1@),
        f.default matches DefaultModel::Value(v) ==> single_line(v),
        leaf_value(record, record_default, f, ident, values) is Ok,
    ensures
        line_end(leaf_value(record, record_default, f, ident, values)->Ok_0),
{
    reveal_strlit(" = ");
    reveal_strlit("\n");
    reveal_strlit(" = \"\"\n");
    let v = leaf_value(record, record_default, f, ident, values)->Ok_0;
    match f.default {
        DefaultModel::Value(d) => {
            lemma_single_concat(" = "@, d);
            assert(v =~= (" = "@ + d) + "\n"@);
            assert(v.drop_last() =~= " = "@ + d);
        },
        DefaultModel::TypeDefault(None) => match record_default {
            Some(DefaultModel::TypeDefault(None)) => {
                lemma_evaluated_line(
                    crate::render::type_default_expr(record, "."@ + ident),
                    f.is_enum,
                    values,
                );
            },
            Some(DefaultModel::Function(func)) => {
                lemma_evaluated_line(crate::render::call_expr(func, "."@ + ident), f.is_enum, values);
            },
            _ => {
                assert(v.drop_last() =~= seq![' ', '=', ' ', '"', '"']);
            },
        },
        DefaultModel::TypeDefault(Some(t)) => {
            lemma_evaluated_line(
                crate::render::type_default_expr(t, Seq::empty()),
                f.is_enum,
                values,
            );
        },
        DefaultModel::Function(func) => {
            lemma_evaluated_line(crate::render::call_expr(func, Seq::empty()), f.is_enum, values);
        },
    }
}

proof fn lemma_record_index_in_range(schema: Seq<RecordDecl>, name: Seq<char>)
    ensures
        record_index(schema, name) matches Some(k) ==> 0 <= k < schema.len(),
    decreases schema.len(),
{
    if schema.len() > 0 {
        lemma_record_index_in_range(schema.drop_last(), name);
    }
}

proof fn lemma_child_prefix(f: FieldModel, prefix: Seq<char>)
    requires
        single_line(prefix),
        single_line(f.name),
        f.optional || commented(prefix),
    ensures
        commented(child_prefix(f, prefix)),
        single_line(child_prefix(f, prefix)),
{
    reveal_strlit("# ");
    reveal_strlit(".");
    let p = key_path(prefix);
    assert(single_line(p)) by {
        if commented(prefix) {
            assert forall|i: int| 0 <= i < p.len() implies p[i] != '\n' by {
                assert(p[i] == prefix[i + 2]);
            }
        }
    }
    assert(single_line("# "@));
    assert(single_line("."@));
    lemma_single_concat("# "@, p);
    lemma_single_concat("# "@ + p, f.name);
    lemma_single_concat("# "@ + p + f.name, "."@);
    let c = child_prefix(f, prefix);
    assert(c.subrange(0, 2) =~= "# "@);
}

proof fn lemma_format(f: FieldModel, in_comment: bool)
    requires
        f.optional || in_comment,
    ensures
        commented_format(format_of(f, in_comment)),
{
    reveal_strlit("# ");
    reveal_strlit("[");
    reveal_strlit("[[");
    reveal_strlit("]\n");
    reveal_strlit("]]\n");
    let fm = format_of(f, in_comment);
    if fm.0.len() > 0 {
        assert(fm.0[0] == '#');
        assert(single_line(fm.0));
        assert(single_line(fm.1.drop_last()));
    }
}

proof fn lemma_label(f: FieldModel, label: Seq<char>)
    requires
        single_line(label),
        plan_single_line(f),
        label_of(f, label) is Ok,
    ensures
        single_line(label_of(f, label)->Ok_0),
{
    reveal_strlit(".");
    assert(single_line("."@));
    lemma_single_concat(f.name, "."@);
    lemma_single_concat(f.name + "."@, key_of(f));
    let seg = match f.nesting_format {
        Some(NestingFormat::Section(NestingType::Dict)) => if f.flatten {
            key_of(f)
        } else {
            f.name + "."@ + key_of(f)
        },
        _ => f.name,
    };
    lemma_single_concat(label, "."@);
    lemma_single_concat(label + "."@, seg);
    assert(single_line(joined(label, seg)));
}

proof fn lemma_tail(a: Seq<char>, z: Seq<char>)
    ensures
        (a + z).subrange(a.len() as int, (a + z).len() as int) == z,
        has_prefix(a + z, a),
{
    assert((a + z).subrange(a.len() as int, (a + z).len() as int) =~= z);
    assert((a + z).subrange(0, a.len() as int) =~= a);
}

/// A record rendered under a commented key prefix, with a commented header
/// or none, is comments only, in both of its parts and at every depth of
/// nesting below it.
pub proof fn lemma_commented_record(
    schema: Seq<RecordDecl>,
    name: Seq<char>,
    label: Seq<char>,
    format: (Seq<char>, Seq<char>),
    prefix: Seq<char>,
    values: Seq<(String, String)>,
    fuel: nat,
)
    requires
        single_line_schema(schema, values),
        commented(prefix),
        single_line(prefix),
        single_line(label),
        commented_format(format),
    ensures
        record_parts(schema, name, label, format, prefix, values, fuel) matches Ok((a, b)) ==> {
            &&& commented_out(a) && ends_line(a)
            &&& commented_out(b) && ends_line(b)
        },
    decreases fuel, 1int, 0int,
{
    lemma_record_index_in_range(schema, name);
    if let Some(k) = record_index(schema, name) {
        let rec = schema[k];
        if let Ok(m) = meta_of(rec.attrs@) {
            let n = rec.fields.len() as int;
            lemma_commented_fields(schema, k, m, label, prefix, values, fuel, n);
            if let Ok((b1, b2)) = fields_text(schema, rec, m, label, prefix, values, fuel, n) {
                lemma_doc_block(m.docs);
                let h = header(label, format);
                if format.0.len() > 0 {
                    let w = format.0 + label + format.1.drop_last();
                    lemma_single_concat(format.0, label);
                    lemma_single_concat(format.0 + label, format.1.drop_last());
                    lemma_line(w);
                    assert(h =~= w + "\n"@) by {
                        reveal_strlit("\n");
                    }
                } else {
                    reveal(commented_out);
                    assert(commented_out(h) && ends_line(h));
                }
                lemma_concat(doc_block(m.docs), h);
                lemma_concat(doc_block(m.docs) + h, b1);
            }
        }
    }
}

proof fn lemma_commented_fields(
    schema: Seq<RecordDecl>,
    k: int,
    m: MetaModel,
    label: Seq<char>,
    prefix: Seq<char>,
    values: Seq<(String, String)>,
    fuel: nat,
    n: int,
)
    requires
        single_line_schema(schema, values),
        commented(prefix),
        single_line(prefix),
        single_line(label),
        0 <= k < schema.len(),
        meta_of(schema[k].attrs@) == Ok::<MetaModel, ErrorModel>(m),
        0 <= n <= schema[k].fields.len(),
    ensures
        fields_text(schema, schema[k], m, label, prefix, values, fuel, n) matches Ok((x, y)) ==> {
            &&& commented_out(x) && ends_line(x)
            &&& commented_out(y) && ends_line(y)
        },
    decreases fuel, 0int, 3 * n,
{
    if n > 0 {
        lemma_commented_fields(schema, k, m, label, prefix, values, fuel, n - 1);
        if let Ok(acc) = fields_text(schema, schema[k], m, label, prefix, values, fuel, n - 1) {
            lemma_commented_step(schema, k, m, label, prefix, values, fuel, n - 1, acc);
        }
    } else {
        reveal(commented_out);
        assert(commented_out(Seq::<char>::empty()));
    }
}

proof fn lemma_commented_step(
    schema: Seq<RecordDecl>,
    k: int,
    m: MetaModel,
    label: Seq<char>,
    prefix: Seq<char>,
    values: Seq<(String, String)>,
    fuel: nat,
    i: int,
    acc: (Seq<char>, Seq<char>),
)
    requires
        single_line_schema(schema, values),
        commented(prefix),
        single_line(prefix),
        single_line(label),
        0 <= k < schema.len(),
        meta_of(schema[k].attrs@) == Ok::<MetaModel, ErrorModel>(m),
        0 <= i < schema[k].fields.len(),
        commented_out(acc.0) && ends_line(acc.0),
        commented_out(acc.1) && ends_line(acc.1),
    ensures
        field_step(schema, schema[k], m, label, prefix, values, fuel, i, acc) matches Ok((x, y)) ==> {
            &&& commented_out(x) && ends_line(x)
            &&& commented_out(y) && ends_line(y)
        },
    decreases fuel, 0int, 3 * i + 2,
{
    let rec = schema[k];
    let decl = rec.fields@[i];
    if let Ok(f) = plan_of(m.default_source is Some, decl, m.rename_rule) {
        assert(plan_single_line(f));
        if !f.skip {
            if f.nesting_format is Some {
                lemma_commented_nested(schema, label, prefix, f, values, fuel, acc);
            } else if let Ok(v) = leaf_value(rec.name@, m.default_source, f, decl.name@, values) {
                lemma_leaf_line(f, prefix, v, values, rec.name@, m.default_source, decl.name@);
                lemma_concat(acc.0, leaf_text(f, prefix, v));
            }
        }
    }
}

/// A leaf's text is comments only when its key line is commented out.
proof fn lemma_leaf_line(
    f: FieldModel,
    prefix: Seq<char>,
    v: Seq<char>,
    values: Seq<(String, String)>,
    record: Seq<char>,
    record_default: Option<DefaultModel>,
    ident: Seq<char>,
)
    requires
        forall|j: int| 0 <= j < values.len() ==> single_line(#[trigger] values[j].1@),
        plan_single_line(f),
        single_line(prefix),
        f.optional || commented(prefix),
        leaf_value(record, record_default, f, ident, values) == Ok::<Seq<char>, ErrorModel>(v),
    ensures
        commented_out(leaf_text(f, prefix, v)),
        ends_line(leaf_text(f, prefix, v)),
{
    reveal_strlit("# ");
    reveal_strlit("\n");
    lemma_leaf_value_line(record, record_default, f, ident, values);
    lemma_doc_block(f.docs);
    let opt = if f.optional {
        "# "@
    } else {
        Seq::<char>::empty()
    };
    assert(single_line(opt));
    let w = opt + prefix + f.name + v.drop_last();
    lemma_single_concat(opt, prefix);
    lemma_single_concat(opt + prefix, f.name);
    lemma_single_concat(opt + prefix + f.name, v.drop_last());
    assert(w[0] == '#') by {
        if f.optional {
            assert(w[0] == opt[0]);
        } else {
            assert(w[0] == prefix.subrange(0, 2)[0]);
        }
    }
    lemma_line(w);
    lemma_line(Seq::<char>::empty());
    assert(Seq::<char>::empty() + "\n"@ =~= "\n"@);
    lemma_concat(w + "\n"@, "\n"@);
    assert(leaf_text(f, prefix, v) =~= doc_block(f.docs) + ((w + "\n"@) + "\n"@));
    lemma_concat(doc_block(f.docs), (w + "\n"@) + "\n"@);
}

proof fn lemma_commented_nested(
    schema: Seq<RecordDecl>,
    label: Seq<char>,
    prefix: Seq<char>,
    f: FieldModel,
    values: Seq<(String, String)>,
    fuel: nat,
    acc: (Seq<char>, Seq<char>),
)
    requires
        single_line_schema(schema, values),
        f.optional || commented(prefix),
        single_line(prefix),
        single_line(label),
        plan_single_line(f),
        commented_out(acc.0) && ends_line(acc.0),
        commented_out(acc.1) && ends_line(acc.1),
    ensures
        nested_effect(schema, label, prefix, f, values, fuel, acc) matches Ok((x, y)) ==> {
            &&& commented_out(x) && ends_line(x)
            &&& commented_out(y) && ends_line(y)
        },
    decreases fuel, 0int, 0int,
{
    if let Some(t) = f.ty {
        if let Ok(l) = label_of(f, label) {
            if fuel > 0 {
                lemma_label(f, label);
                lemma_child_prefix(f, prefix);
                lemma_format(f, commented(prefix));
                let fm = format_of(f, commented(prefix));
                let cp = child_prefix(f, prefix);
                lemma_commented_record(schema, t, l, fm, cp, values, (fuel - 1) as nat);
                if let Ok((p0, p1)) = record_parts(schema, t, l, fm, cp, values, (fuel - 1) as nat) {
                    lemma_doc_block(f.docs);
                    lemma_concat(acc.1, doc_block(f.docs));
                    lemma_concat(acc.1 + doc_block(f.docs), p0);
                    lemma_concat(acc.1 + doc_block(f.docs) + p0, p1);
                    lemma_concat(acc.0, doc_block(f.docs));
                    lemma_concat(acc.0 + doc_block(f.docs), p0);
                    lemma_concat(acc.1, p1);
                }
            }
        }
    }
}

/// Every line of an optional field's output is a comment, at every depth:
/// its documentation lines (which start with `#`), its key line or its
/// section header, and all that its nested record renders, down to the
/// deepest section. The schema's names, documentation lines and values are
/// single lines (a value over several lines continues on lines of its own).
pub proof fn lemma_optional_field_commented(
    schema: Seq<RecordDecl>,
    k: int,
    m: MetaModel,
    label: Seq<char>,
    prefix: Seq<char>,
    values: Seq<(String, String)>,
    fuel: nat,
    i: int,
    acc: (Seq<char>, Seq<char>),
    f: FieldModel,
)
    requires
        single_line_schema(schema, values),
        single_line(prefix),
        single_line(label),
        0 <= k < schema.len(),
        meta_of(schema[k].attrs@) == Ok::<MetaModel, ErrorModel>(m),
        0 <= i < schema[k].fields.len(),
        plan_of(m.default_source is Some, schema[k].fields@[i], m.rename_rule) == Ok::<
            FieldModel,
            ErrorModel,
        >(f),
        f.optional,
        field_step(schema, schema[k], m, label, prefix, values, fuel, i, acc) is Ok,
    ensures
        ({
            let (x, y) = field_step(schema, schema[k], m, label, prefix, values, fuel, i, acc)->Ok_0;
            &&& has_prefix(x, acc.0)
            &&& has_prefix(y, acc.1)
            &&& commented_out(x.subrange(acc.0.len() as int, x.len() as int))
            &&& commented_out(y.subrange(acc.1.len() as int, y.len() as int))
        }),
{
    let rec = schema[k];
    let decl = rec.fields@[i];
    let e = Seq::<char>::empty();
    assert(commented_out(e)) by {
        reveal(commented_out);
    }
    assert(plan_single_line(f));
    let (x, y) = field_step(schema, rec, m, label, prefix, values, fuel, i, acc)->Ok_0;
    if f.skip {
        lemma_tail(acc.0, e);
        lemma_tail(acc.1, e);
        assert(acc.0 + e =~= acc.0);
        assert(acc.1 + e =~= acc.1);
    } else if f.nesting_format is Some {
        let t = f.ty->Some_0;
        let l = label_of(f, label)->Ok_0;
        lemma_label(f, label);
        lemma_child_prefix(f, prefix);
        lemma_format(f, commented(prefix));
        let fm = format_of(f, commented(prefix));
        let cp = child_prefix(f, prefix);
        lemma_commented_record(schema, t, l, fm, cp, values, (fuel - 1) as nat);
        let (p0, p1) = record_parts(schema, t, l, fm, cp, values, (fuel - 1) as nat)->Ok_0;
        lemma_doc_block(f.docs);
        lemma_concat(doc_block(f.docs), p0);
        lemma_concat(doc_block(f.docs) + p0, p1);
        if in_section(f) {
            assert(x == acc.0 + e);
            assert(acc.0 + e =~= acc.0);
            lemma_tail(acc.0, e);
            assert(y =~= acc.1 + (doc_block(f.docs) + p0 + p1));
            lemma_tail(acc.1, doc_block(f.docs) + p0 + p1);
        } else {
            assert(x =~= acc.0 + (doc_block(f.docs) + p0));
            lemma_tail(acc.0, doc_block(f.docs) + p0);
            lemma_tail(acc.1, p1);
        }
    } else {
        let v = leaf_value(rec.name@, m.default_source, f, decl.name@, values)->Ok_0;
        lemma_leaf_line(f, prefix, v, values, rec.name@, m.default_source, decl.name@);
        lemma_tail(acc.0, leaf_text(f, prefix, v));
        lemma_tail(acc.1, e);
        assert(acc.1 + e =~= acc.1);
    }
}

/// The key line of an optional leaf, or of any leaf of a record rendered
/// under a commented prefix, starts with `# `; the prefix that such a field
/// hands to its nested record starts with `# `, and so does the header of its
/// section.
pub proof fn lemma_optional_commented(
    f: FieldModel,
    prefix: Seq<char>,
    value: Seq<char>,
    label: Seq<char>,
)
    ensures
        (f.optional || commented(prefix)) ==> has_prefix(
            leaf_text(f, prefix, value).subrange(
                doc_block(f.docs).len() as int,
                leaf_text(f, prefix, value).len() as int,
            ),
            "# "@,
        ),
        (f.optional || commented(prefix)) ==> commented(child_prefix(f, prefix)),
        (f.optional || commented(prefix)) && in_section(f) ==> has_prefix(
            header(label, format_of(f, commented(prefix))),
            "# "@,
        ),
{
    reveal_strlit("# ");
    let d = doc_block(f.docs);
    let t = leaf_text(f, prefix, value);
    let opt = if f.optional {
        "# "@
    } else {
        Seq::<char>::empty()
    };
    let rest = opt + prefix + f.name + value + "\n"@;
    assert(t =~= d + rest);
    assert(t.subrange(d.len() as int, t.len() as int) =~= rest);
    if f.optional {
        assert(rest.subrange(0, 2) =~= "# "@);
    } else if commented(prefix) {
        assert(rest.subrange(0, 2) =~= prefix.subrange(0, 2));
    }
    if f.optional || commented(prefix) {
        assert(child_prefix(f, prefix).subrange(0, 2) =~= "# "@);
        if in_section(f) {
            let h = header(label, format_of(f, commented(prefix)));
            assert(format_of(f, commented(prefix)).0.len() >= 2);
            assert(h.subrange(0, 2) =~= "# "@);
        }
    }
}

/// In the text of a record, the key line of an optional leaf field (or of
/// any leaf field, when the record is rendered under a commented prefix, as
/// the body of an optional nested field is) starts with `# `, right after the
/// field's comment lines.
pub proof fn lemma_optional_leaf_in_record(
    schema: Seq<RecordDecl>,
    rec: RecordDecl,
    m: MetaModel,
    label: Seq<char>,
    prefix: Seq<char>,
    values: Seq<(String, String)>,
    fuel: nat,
    i: int,
    f: FieldModel,
)
    requires
        0 <= i < rec.fields.len(),
        fields_text(schema, rec, m, label, prefix, values, fuel, i + 1) is Ok,
        plan_of(m.default_source is Some, rec.fields@[i], m.rename_rule) == Ok::<
            FieldModel,
            ErrorModel,
        >(f),
        !f.skip,
        f.nesting_format is None,
        f.optional || commented(prefix),
    ensures
        ({
            let before = fields_text(schema, rec, m, label, prefix, values, fuel, i)->Ok_0.0;
            let after = fields_text(schema, rec, m, label, prefix, values, fuel, i + 1)->Ok_0.0;
            has_prefix(
                after.subrange((before.len() + doc_block(f.docs).len()) as int, after.len() as int),
                "# "@,
            )
        }),
{
    assert(fields_text(schema, rec, m, label, prefix, values, fuel, i) is Ok);
    let acc = fields_text(schema, rec, m, label, prefix, values, fuel, i)->Ok_0;
    assert(fields_text(schema, rec, m, label, prefix, values, fuel, i + 1) == field_step(
        schema,
        rec,
        m,
        label,
        prefix,
        values,
        fuel,
        i,
        acc,
    ));
    assert(leaf_value(rec.name@, m.default_source, f, rec.fields@[i].name@, values) is Ok);
    let after = fields_text(schema, rec, m, label, prefix, values, fuel, i + 1)->Ok_0.0;
    let v = leaf_value(rec.name@, m.default_source, f, rec.fields@[i].name@, values)->Ok_0;
    let t = leaf_text(f, prefix, v);
    assert(after == acc.0 + t);
    lemma_optional_commented(f, prefix, v, label);
    let d = doc_block(f.docs).len() as int;
    assert(after.subrange(acc.0.len() + d, after.len() as int) =~= t.subrange(d, t.len() as int));
}

/// A field step only appends: a field with a section header of its own adds
/// to the second part only, a leaf to the first part only.
pub proof fn lemma_step_appends(
    schema: Seq<RecordDecl>,
    rec: RecordDecl,
    m: MetaModel,
    label: Seq<char>,
    prefix: Seq<char>,
    values: Seq<(String, String)>,
    fuel: nat,
    i: int,
    acc: (Seq<char>, Seq<char>),
)
    requires
        field_step(schema, rec, m, label, prefix, values, fuel, i, acc) is Ok,
    ensures
        ({
            let (x, y) = field_step(schema, rec, m, label, prefix, values, fuel, i, acc)->Ok_0;
            &&& has_prefix(x, acc.0)
            &&& has_prefix(y, acc.1)
            &&& (0 <= i < rec.fields.len() ==> match plan_of(
                m.default_source is Some,
                rec.fields@[i],
                m.rename_rule,
            ) {
                Ok(f) => (in_section(f) ==> x == acc.0) && (f.nesting_format is None ==> y
                    == acc.1),
                Err(_) => true,
            })
        }),
{
    let (x, y) = field_step(schema, rec, m, label, prefix, values, fuel, i, acc)->Ok_0;
    assert(field_effect(schema, rec, m, label, prefix, values, fuel, i, acc) is Ok);
    assert(x.subrange(0, acc.0.len() as int) =~= acc.0);
    assert(y.subrange(0, acc.1.len() as int) =~= acc.1);
}

/// The text of the first `i` fields is a beginning of that of the first `j`.
pub proof fn lemma_fields_grow(
    schema: Seq<RecordDecl>,
    rec: RecordDecl,
    m: MetaModel,
    label: Seq<char>,
    prefix: Seq<char>,
    values: Seq<(String, String)>,
    fuel: nat,
    i: int,
    j: int,
)
    requires
        0 <= i <= j,
        fields_text(schema, rec, m, label, prefix, values, fuel, j) is Ok,
    ensures
        fields_text(schema, rec, m, label, prefix, values, fuel, i) is Ok,
        has_prefix(
            fields_text(schema, rec, m, label, prefix, values, fuel, j)->Ok_0.0,
            fields_text(schema, rec, m, label, prefix, values, fuel, i)->Ok_0.0,
        ),
        has_prefix(
            fields_text(schema, rec, m, label, prefix, values, fuel, j)->Ok_0.1,
            fields_text(schema, rec, m, label, prefix, values, fuel, i)->Ok_0.1,
        ),
    decreases j - i,
{
    let t = fields_text(schema, rec, m, label, prefix, values, fuel, j)->Ok_0;
    if i == j {
        assert(t.0.subrange(0, t.0.len() as int) =~= t.0);
        assert(t.1.subrange(0, t.1.len() as int) =~= t.1);
    } else {
        let acc = fields_text(schema, rec, m, label, prefix, values, fuel, j - 1)->Ok_0;
        lemma_step_appends(schema, rec, m, label, prefix, values, fuel, j - 1, acc);
        lemma_fields_grow(schema, rec, m, label, prefix, values, fuel, i, j - 1);
        let s = fields_text(schema, rec, m, label, prefix, values, fuel, i)->Ok_0;
        assert(t.0.subrange(0, s.0.len() as int) =~= acc.0.subrange(0, s.0.len() as int));
        assert(t.1.subrange(0, s.1.len() as int) =~= acc.1.subrange(0, s.1.len() as int));
    }
}

/// Fields without a section header of their own come before those with one,
/// whatever the order of declaration: in the text of a record, what field
/// `i` (one without a section header) adds under the record's header stands
/// in full before the text of field `j` (one with a section header). A leaf
/// `i` adds nothing else; `j` adds to the second part only.
pub proof fn lemma_bucket_order(
    schema: Seq<RecordDecl>,
    name: Seq<char>,
    label: Seq<char>,
    format: (Seq<char>, Seq<char>),
    prefix: Seq<char>,
    values: Seq<(String, String)>,
    fuel: nat,
    k: int,
    m: MetaModel,
    i: int,
    j: int,
    fi: FieldModel,
    fj: FieldModel,
)
    requires
        record_text(schema, name, label, format, prefix, values, fuel) is Ok,
        record_index(schema, name) == Some(k),
        meta_of(schema[k].attrs@) == Ok::<MetaModel, ErrorModel>(m),
        0 <= i < schema[k].fields.len(),
        0 <= j < schema[k].fields.len(),
        plan_of(m.default_source is Some, schema[k].fields@[i], m.rename_rule) == Ok::<
            FieldModel,
            ErrorModel,
        >(fi),
        plan_of(m.default_source is Some, schema[k].fields@[j], m.rename_rule) == Ok::<
            FieldModel,
            ErrorModel,
        >(fj),
        !in_section(fi),
        in_section(fj),
    ensures
        ({
            let rec = schema[k];
            let n = rec.fields.len() as int;
            let t = record_text(schema, name, label, format, prefix, values, fuel)->Ok_0;
            let start = (doc_block(m.docs).len() + header(label, format).len()) as int;
            let all = fields_text(schema, rec, m, label, prefix, values, fuel, n)->Ok_0;
            let before_i = fields_text(schema, rec, m, label, prefix, values, fuel, i)->Ok_0.0;
            let after_i = fields_text(schema, rec, m, label, prefix, values, fuel, i + 1)->Ok_0.0;
            let before_j = fields_text(schema, rec, m, label, prefix, values, fuel, j)->Ok_0.1;
            let after_j = fields_text(schema, rec, m, label, prefix, values, fuel, j + 1)->Ok_0.1;
            &&& t.subrange(start + before_i.len(), start + after_i.len()) == after_i.subrange(
                before_i.len() as int,
                after_i.len() as int,
            )
            &&& t.subrange(
                start + all.0.len() + before_j.len(),
                start + all.0.len() + after_j.len(),
            ) == after_j.subrange(before_j.len() as int, after_j.len() as int)
            &&& start + after_i.len() <= start + all.0.len() + before_j.len()
            &&& (fi.nesting_format is None ==> fields_text(schema, rec, m, label, prefix, values, fuel, i + 1)->Ok_0.1
                == fields_text(schema, rec, m, label, prefix, values, fuel, i)->Ok_0.1)
            &&& fields_text(schema, rec, m, label, prefix, values, fuel, j + 1)->Ok_0.0
                == fields_text(schema, rec, m, label, prefix, values, fuel, j)->Ok_0.0
        }),
{
    lemma_record_index_in_range(schema, name);
    let rec = schema[k];
    let n = rec.fields.len() as int;
    let all = fields_text(schema, rec, m, label, prefix, values, fuel, n)->Ok_0;
    let t = record_text(schema, name, label, format, prefix, values, fuel)->Ok_0;
    assert(record_parts(schema, name, label, format, prefix, values, fuel) == Ok::<
        (Seq<char>, Seq<char>),
        ErrorModel,
    >((doc_block(m.docs) + header(label, format) + all.0, all.1)));
    let pre = doc_block(m.docs) + header(label, format);
    let p = pre.len() as int;
    assert(t == pre + all.0 + all.1);
    lemma_fields_grow(schema, rec, m, label, prefix, values, fuel, i + 1, n);
    lemma_fields_grow(schema, rec, m, label, prefix, values, fuel, i, i + 1);
    lemma_fields_grow(schema, rec, m, label, prefix, values, fuel, j + 1, n);
    lemma_fields_grow(schema, rec, m, label, prefix, values, fuel, j, j + 1);
    let acc_i = fields_text(schema, rec, m, label, prefix, values, fuel, i)->Ok_0;
    let acc_j = fields_text(schema, rec, m, label, prefix, values, fuel, j)->Ok_0;
    lemma_step_appends(schema, rec, m, label, prefix, values, fuel, i, acc_i);
    lemma_step_appends(schema, rec, m, label, prefix, values, fuel, j, acc_j);
    let before_i = fields_text(schema, rec, m, label, prefix, values, fuel, i)->Ok_0.0;
    let after_i = fields_text(schema, rec, m, label, prefix, values, fuel, i + 1)->Ok_0.0;
    let before_j = fields_text(schema, rec, m, label, prefix, values, fuel, j)->Ok_0.1;
    let after_j = fields_text(schema, rec, m, label, prefix, values, fuel, j + 1)->Ok_0.1;
    assert(t.subrange(p + before_i.len(), p + after_i.len()) =~= all.0.subrange(
        before_i.len() as int,
        after_i.len() as int,
    ));
    assert(all.0.subrange(before_i.len() as int, after_i.len() as int) =~= after_i.subrange(
        before_i.len() as int,
        after_i.len() as int,
    ));
    assert(t.subrange(
        p + all.0.len() + before_j.len(),
        p + all.0.len() + after_j.len(),
    ) =~= all.1.subrange(before_j.len() as int, after_j.len() as int));
    assert(all.1.subrange(before_j.len() as int, after_j.len() as int) =~= after_j.subrange(
        before_j.len() as int,
        after_j.len() as int,
    ));
}

/// Within each part of a record's text, fields keep their order of
/// declaration: for fields `i < j`, the text up to and including field `i`
/// is a beginning of the text before field `j`, in both parts.
pub proof fn lemma_declaration_order(
    schema: Seq<RecordDecl>,
    rec: RecordDecl,
    m: MetaModel,
    label: Seq<char>,
    prefix: Seq<char>,
    values: Seq<(String, String)>,
    fuel: nat,
    i: int,
    j: int,
)
    requires
        0 <= i < j,
        fields_text(schema, rec, m, label, prefix, values, fuel, j + 1) is Ok,
    ensures
        fields_text(schema, rec, m, label, prefix, values, fuel, i + 1) is Ok,
        fields_text(schema, rec, m, label, prefix, values, fuel, j) is Ok,
        has_prefix(
            fields_text(schema, rec, m, label, prefix, values, fuel, j)->Ok_0.0,
            fields_text(schema, rec, m, label, prefix, values, fuel, i + 1)->Ok_0.0,
        ),
        has_prefix(
            fields_text(schema, rec, m, label, prefix, values, fuel, j)->Ok_0.1,
            fields_text(schema, rec, m, label, prefix, values, fuel, i + 1)->Ok_0.1,
        ),
{
    lemma_fields_grow(schema, rec, m, label, prefix, values, fuel, j, j + 1);
    lemma_fields_grow(schema, rec, m, label, prefix, values, fuel, i + 1, j);
}

} // verus!
