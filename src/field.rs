//! Planning one field: its key, example value source, optionality and layout.
use vstd::prelude::*;
use vstd::string::*;
use crate::attrs::{
    meta_of, parse_attrs, Attr, ConfigError, DefaultModel, DefaultSource, ErrorKind, ErrorModel,
    NestingFormat, NestingType, config_error, error_of,
};
use crate::case::{apply_rule, RenameRule};
use crate::text::{
    chars_of, drop_front, has_prefix, push_str, starts_with, remove_all, replace_char, replaced, string_of, strip_raw, trim_matches,
    trimmed_of, unraw, without,
};
use crate::types::{classify, parse_type, TypeDesc};

verus! {

/// One field of a record, as schema introspection hands it over.
#[derive(Debug)]
pub struct FieldDecl {
    /// The declared name (a raw identifier keeps its `r#`).
    pub name: String,
    pub ty: TypeDesc,
    pub attrs: Vec<Attr>,
}

/// The rendering plan of one field.
#[derive(Debug)]
pub struct ParsedField {
    pub docs: Vec<String>,
    pub default: DefaultSource,
    pub nesting_format: Option<NestingFormat>,
    pub skip: bool,
    pub is_enum: bool,
    pub flatten: bool,
    /// The key in the document.
    pub name: String,
    /// Whether the field is optional and not required: its lines are commented out.
    pub optional: bool,
    /// The name of the innermost type, when there is one.
    pub ty: Option<String>,
}

/// The model of a `ParsedField`.
pub struct FieldModel {
    pub docs: Seq<Seq<char>>,
    pub default: DefaultModel,
    pub nesting_format: Option<NestingFormat>,
    pub skip: bool,
    pub is_enum: bool,
    pub flatten: bool,
    pub name: Seq<char>,
    pub optional: bool,
    pub ty: Option<Seq<char>>,
}

impl View for ParsedField {
    type V = FieldModel;

    open spec fn view(&self) -> FieldModel {
        FieldModel {
            docs: self.docs.deep_view(),
            default: self.default@,
            nesting_format: self.nesting_format,
            skip: self.skip,
            is_enum: self.is_enum,
            flatten: self.flatten,
            name: self.name@,
            optional: self.optional,
            ty: self.ty.deep_view(),
        }
    }
}

/// The comment lines made of documentation lines: `#` and the line, each.
pub open spec fn doc_block(docs: Seq<Seq<char>>) -> Seq<char>
    decreases docs.len(),
{
    if docs.len() == 0 {
        Seq::empty()
    } else {
        doc_block(docs.drop_last()) + "#"@ + docs.last() + "\n"@
    }
}

/// The key under which a field appears: its explicit rename, else the rename
/// rule applied to its declared name; without raw-identifier marks.
pub open spec fn field_key(rename: Option<Seq<char>>, rule: RenameRule, declared: Seq<char>) -> Seq<char> {
    unraw(
        match rename {
            Some(r) => r,
            None => apply_rule(rule, declared),
        },
    )
}

/// The plan of field `f` of a record whose own default (if `record_default`)
/// the field's value is drawn from, and whose fields are renamed by `rule`.
pub open spec fn plan_of(record_default: bool, f: FieldDecl, rule: RenameRule) -> Result<FieldModel, ErrorModel> {
    match meta_of(f.attrs@) {
        Err(e) => Err(e),
        Ok(m) => {
            let info = classify(f.ty, Seq::empty(), m.nesting_format);
            Ok(
                FieldModel {
                    docs: m.docs,
                    default: match m.default_source {
                        Some(DefaultModel::TypeDefault(_)) => DefaultModel::TypeDefault(info.name),
                        Some(DefaultModel::Function(func)) => DefaultModel::Function(func),
                        Some(DefaultModel::Value(v)) => DefaultModel::Value(v),
                        None => if record_default {
                            DefaultModel::TypeDefault(None)
                        } else {
                            DefaultModel::Value(info.default)
                        },
                    },
                    nesting_format: info.nesting,
                    skip: m.skip,
                    is_enum: m.is_enum,
                    flatten: m.flatten,
                    name: field_key(m.rename, rule, f.name@),
                    optional: info.optional && !m.require,
                    ty: info.name,
                },
            )
        },
    }
}

/// The placeholder key of a map-shaped section: the literal default with
/// quotes trimmed, spaces removed and dots made dashes; `example` when that
/// leaves nothing or there is no literal default.
pub open spec fn key_of(f: FieldModel) -> Seq<char> {
    match f.default {
        DefaultModel::Value(v) => {
            let key = replaced(without(trimmed_of(v, '"'), ' '), '.', '-');
            if key.len() > 0 {
                key
            } else {
                "example"@
            }
        },
        _ => "example"@,
    }
}

/// The key prefix of the nested record of field `f` in a record rendered
/// under no prefix: `# ` for an optional field, then `name.` for a
/// prefix-nested one (see `child_prefix` for any enclosing prefix).
pub open spec fn prefix_of(f: FieldModel) -> Seq<char> {
    let comment = if f.optional {
        "# "@
    } else {
        Seq::empty()
    };
    if f.nesting_format == Some(NestingFormat::Prefix) {
        comment + f.name + "."@
    } else {
        comment
    }
}

/// `parent` and `name` joined into a dotted table path.
pub open spec fn joined(parent: Seq<char>, name: Seq<char>) -> Seq<char> {
    if parent.len() == 0 {
        name
    } else {
        parent + "."@ + name
    }
}

/// The table path of the nested record of field `f`, in a record whose path
/// is `parent`: a flattened record keeps the parent's path, a map adds its
/// placeholder key; a flattened list of records is an error.
pub open spec fn label_of(f: FieldModel, parent: Seq<char>) -> Result<Seq<char>, ErrorModel> {
    match f.nesting_format {
        Some(NestingFormat::Section(NestingType::Vector)) => if f.flatten {
            Err(error_of(ErrorKind::FlattenCollection, f.name))
        } else {
            Ok(joined(parent, f.name))
        },
        Some(NestingFormat::Section(NestingType::Dict)) => if f.flatten {
            Ok(joined(parent, key_of(f)))
        } else {
            Ok(joined(parent, f.name + "."@ + key_of(f)))
        },
        Some(NestingFormat::Prefix) => Ok(joined(parent, f.name)),
        _ => if f.flatten {
            Ok(parent)
        } else {
            Ok(joined(parent, f.name))
        },
    }
}

/// Whether the key prefix `prefix` comments its lines out.
pub open spec fn commented(prefix: Seq<char>) -> bool {
    has_prefix(prefix, "# "@)
}

/// The dotted key path that `prefix` puts before each key, without its
/// comment mark.
pub open spec fn key_path(prefix: Seq<char>) -> Seq<char> {
    if commented(prefix) {
        prefix.subrange(2, prefix.len() as int)
    } else {
        prefix
    }
}

/// The key prefix under which the nested record of field `f` is rendered, in
/// a record rendered under `prefix`: `# ` when the field is optional or the
/// record is itself commented out, then the key path: the record's own path
/// followed by `name.` for prefix nesting, the record's path for a flattened
/// record, none for a record with a section header of its own.
pub open spec fn child_prefix(f: FieldModel, prefix: Seq<char>) -> Seq<char> {
    let comment = if f.optional || commented(prefix) {
        "# "@
    } else {
        Seq::empty()
    };
    match f.nesting_format {
        Some(NestingFormat::Prefix) => comment + key_path(prefix) + f.name + "."@,
        Some(NestingFormat::Section(NestingType::Record)) => if f.flatten {
            comment + key_path(prefix)
        } else {
            comment
        },
        _ => comment,
    }
}

/// What stands before and after the table path in the header of the nested
/// record of field `f`: `[[`/`]]` for a list, `[`/`]` otherwise, commented
/// out when the field is optional or the enclosing record is commented out
/// (`in_comment`); nothing (no header) for prefix nesting and a flattened
/// record.
pub open spec fn format_of(f: FieldModel, in_comment: bool) -> (Seq<char>, Seq<char>) {
    let comment = if f.optional || in_comment {
        "# "@
    } else {
        Seq::empty()
    };
    match f.nesting_format {
        Some(NestingFormat::Section(NestingType::Vector)) => (comment + "[["@, "]]\n"@),
        Some(NestingFormat::Section(NestingType::Dict)) => (comment + "["@, "]\n"@),
        Some(NestingFormat::Section(NestingType::Record)) => if f.flatten {
            (Seq::empty(), Seq::empty())
        } else {
            (comment + "["@, "]\n"@)
        },
        _ => (Seq::empty(), Seq::empty()),
    }
}

pub open spec fn plan_result(r: Result<ParsedField, ConfigError>) -> Result<FieldModel, ErrorModel> {
    match r {
        Ok(f) => Ok(f@),
        Err(e) => Err(e@),
    }
}

/// Appends each documentation line as a comment line.
pub fn push_doc_string(example: &mut String, docs: &Vec<String>)
    ensures
        final(example)@ == old(example)@ + doc_block(docs.deep_view()),
{
    let ghost start = example@;
    let ghost all = docs.deep_view();
    let mut i: usize = 0;
    while i < docs.len()
        invariant
            i <= docs.len(),
            all == docs.deep_view(),
            example@ == start + doc_block(all.subrange(0, i as int)),
        decreases docs.len() - i,
    {
        assert(all.subrange(0, i as int + 1).drop_last() =~= all.subrange(0, i as int));
        push_str(example, "#");
        push_str(example, docs[i].as_str());
        push_str(example, "\n");
        i = i + 1;
        assert(example@ =~= start + doc_block(all.subrange(0, i as int)));
    }
    assert(all.subrange(0, docs.len() as int) =~= all);
}

/// Reads the declaration of a field into its plan.
pub fn parse_field(
    struct_default: Option<&DefaultSource>,
    field: &FieldDecl,
    rename_rule: RenameRule,
) -> (r: Result<ParsedField, ConfigError>)
    ensures
        plan_result(r) == plan_of(struct_default is Some, *field, rename_rule),
{
    let meta = match parse_attrs(&field.attrs) {
        Ok(m) => m,
        Err(e) => return Err(e),
    };
    let mut default_value = String::new();
    let mut optional = false;
    let mut nesting_format = meta.nesting_format;
    let ty = parse_type(&field.ty, &mut default_value, &mut optional, &mut nesting_format);
    let default = match meta.default_source {
        Some(DefaultSource::DefaultFn(_)) => DefaultSource::DefaultFn(ty.clone()),
        Some(DefaultSource::SerdeDefaultFn(f)) => DefaultSource::SerdeDefaultFn(f),
        Some(DefaultSource::DefaultValue(v)) => DefaultSource::DefaultValue(v),
        None => if struct_default.is_some() {
            DefaultSource::DefaultFn(None)
        } else {
            DefaultSource::DefaultValue(default_value)
        },
    };
    let declared = match meta.rename {
        Some(r) => chars_of(r.as_str()),
        None => rename_rule.apply_to_field(&chars_of(field.name.as_str())),
    };
    let name = string_of(&strip_raw(&declared));
    Ok(
        ParsedField {
            docs: meta.docs,
            default,
            nesting_format,
            skip: meta.skip,
            is_enum: meta.is_enum,
            flatten: meta.flatten,
            name,
            optional: optional && !meta.require,
            ty,
        },
    )
}

impl ParsedField {
    /// Appends the field's documentation lines as comment lines.
    pub fn push_doc_to_string(&self, s: &mut String)
        ensures
            final(s)@ == old(s)@ + doc_block(self@.docs),
    {
        push_doc_string(s, &self.docs);
    }

    /// The placeholder key of a map-shaped section (see `key_of`).
    pub fn default_key(&self) -> (r: String)
        ensures
            r@ == key_of(self@),
    {
        if let DefaultSource::DefaultValue(v) = &self.default {
            let t = trim_matches(&chars_of(v.as_str()), '"');
            let spaceless = remove_all(&t, ' ');
            let key = replace_char(&spaceless, '.', '-');
            if key.len() > 0 {
                return string_of(&key);
            }
        }
        String::from_str("example")
    }

    /// The key prefix of the nested record in a record rendered under no
    /// prefix (see `prefix_of`).
    pub fn prefix(&self) -> (r: String)
        ensures
            r@ == prefix_of(self@),
    {
        let mut p = if self.optional {
            String::from_str("# ")
        } else {
            String::new()
        };
        if self.nesting_format == Some(NestingFormat::Prefix) {
            push_str(&mut p, self.name.as_str());
            push_str(&mut p, ".");
        }
        p
    }

    /// The table path of the nested record (see `label_of`), in a record
    /// whose path is `parent`.
    pub fn label(&self, parent: &str) -> (r: Result<String, ConfigError>)
        ensures
            match label_of(self@, parent@) {
                Ok(l) => r matches Ok(s) && s@ == l,
                Err(e) => r matches Err(e1) && e1@ == e,
            },
    {
        let segment = match self.nesting_format {
            Some(NestingFormat::Section(NestingType::Vector)) => {
                if self.flatten {
                    return Err(config_error(ErrorKind::FlattenCollection, &chars_of(self.name.as_str())));
                }
                self.name.clone()
            },
            Some(NestingFormat::Section(NestingType::Dict)) => {
                let key = self.default_key();
                if self.flatten {
                    key
                } else {
                    let mut s = self.name.clone();
                    push_str(&mut s, ".");
                    push_str(&mut s, key.as_str());
                    s
                }
            },
            Some(NestingFormat::Prefix) => self.name.clone(),
            _ => {
                if self.flatten {
                    return Ok(String::from_str(parent));
                }
                self.name.clone()
            },
        };
        Ok(join(parent, &segment))
    }

    /// The key prefix of the nested record, in a record rendered under
    /// `prefix` (see `child_prefix`).
    pub fn nested_prefix(&self, prefix: &str) -> (r: String)
        ensures
            r@ == child_prefix(self@, prefix@),
    {
        proof {
            reveal_strlit("# ");
        }
        let chars = chars_of(prefix);
        let in_comment = starts_with(&chars, &chars_of("# "));
        let path = if in_comment {
            drop_front(&chars, 2)
        } else {
            chars
        };
        let mut p = if self.optional || in_comment {
            String::from_str("# ")
        } else {
            String::new()
        };
        let ghost comment = p@;
        match self.nesting_format {
            Some(NestingFormat::Prefix) => {
                push_str(&mut p, string_of(&path).as_str());
                push_str(&mut p, self.name.as_str());
                push_str(&mut p, ".");
            },
            Some(NestingFormat::Section(NestingType::Record)) => {
                if self.flatten {
                    push_str(&mut p, string_of(&path).as_str());
                }
            },
            _ => {},
        }
        assert(p@ =~= child_prefix(self@, prefix@));
        p
    }

    /// What stands before and after the table path in the nested record's
    /// header (see `format_of`).
    pub fn label_format(&self, in_comment: bool) -> (r: (String, String))
        ensures
            r.0@ == format_of(self@, in_comment).0,
            r.1@ == format_of(self@, in_comment).1,
    {
        proof {
            reveal_strlit("");
        }
        let mut open = if self.optional || in_comment {
            String::from_str("# ")
        } else {
            String::new()
        };
        match self.nesting_format {
            Some(NestingFormat::Section(NestingType::Vector)) => {
                push_str(&mut open, "[[");
                (open, String::from_str("]]\n"))
            },
            Some(NestingFormat::Section(NestingType::Dict)) => {
                push_str(&mut open, "[");
                (open, String::from_str("]\n"))
            },
            Some(NestingFormat::Section(NestingType::Record)) => {
                if self.flatten {
                    (String::new(), String::new())
                } else {
                    push_str(&mut open, "[");
                    (open, String::from_str("]\n"))
                }
            },
            _ => (String::new(), String::new()),
        }
    }
}

/// `parent` and `name` joined into a dotted table path.
pub fn join(parent: &str, name: &String) -> (r: String)
    ensures
        r@ == joined(parent@, name@),
{
    if parent.unicode_len() == 0 {
        name.clone()
    } else {
        let mut s = String::from_str(parent);
        push_str(&mut s, ".");
        push_str(&mut s, name.as_str());
        s
    }
}

} // verus!
