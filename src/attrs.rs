//! Reading the raw attributes of a record or a field into normalised metadata.
use vstd::prelude::*;
use crate::case::{rule_named, RenameRule};
use crate::scan::{pieces, split_unenclosed};
use crate::text::{
    after_first, chars_eq, chars_of, has_prefix, split_after, starts_with, string_of, trim,
    trim_matches, trimmed, trimmed_of,
};

verus! {

/// One raw attribute, as schema introspection hands it over.
#[derive(Debug)]
pub enum Attr {
    /// A documentation line (`/// text` gives `text` with its leading space).
    Doc(String),
    /// The directive list of a `serde(...)` attribute, as token text.
    Serde(String),
    /// The directive list of a `toml_example(...)` attribute, as token text.
    TomlExample(String),
    /// Any other attribute; it is ignored.
    Other,
}

/// Where a field's example value comes from.
#[derive(Debug)]
pub enum DefaultSource {
    /// Literal text, used as it stands.
    DefaultValue(String),
    /// The default of a type: the field's own type once it is known; `None`
    /// before that, or when the field's type has no name.
    DefaultFn(Option<String>),
    /// The result of calling the named function.
    SerdeDefaultFn(String),
}

/// The model of a `DefaultSource`.
pub enum DefaultModel {
    Value(Seq<char>),
    TypeDefault(Option<Seq<char>>),
    Function(Seq<char>),
}

impl View for DefaultSource {
    type V = DefaultModel;

    open spec fn view(&self) -> DefaultModel {
        match self {
            DefaultSource::DefaultValue(v) => DefaultModel::Value(v@),
            DefaultSource::DefaultFn(t) => DefaultModel::TypeDefault(t.deep_view()),
            DefaultSource::SerdeDefaultFn(f) => DefaultModel::Function(f@),
        }
    }
}

/// The kind of section a section-nested field becomes.
#[derive(Clone, Copy, Debug, PartialEq, Eq, Structural)]
pub enum NestingType {
    /// `[name]`: one nested record.
    Record,
    /// `[[name]]`: a list of records.
    Vector,
    /// `[name.key]`: a map of records.
    Dict,
}

/// How a nested record is laid out.
#[derive(Clone, Copy, Debug, PartialEq, Eq, Structural)]
pub enum NestingFormat {
    /// Under a bracketed header.
    Section(NestingType),
    /// As dotted keys `name.key = value`, with no header.
    Prefix,
}

/// The kinds of configuration error; each aborts the generation.
#[derive(Clone, Copy, Debug, PartialEq, Eq, Structural)]
pub enum ErrorKind {
    /// A `toml_example` directive that is not recognised.
    NotAllowedDirective,
    /// A nesting style other than `prefix` or `section`.
    NestingStyle,
    /// A `rename_all` rule that is not recognised.
    RenameRuleName,
    /// Nesting asked for on a field whose type names no record.
    NestingNotOnRecord,
    /// `flatten` on a list of records.
    FlattenCollection,
    /// A literal default given for a whole record.
    RecordDefaultValue,
    /// A nested record that the schema does not describe.
    UnknownRecord,
    /// A record that nests itself, directly or through others.
    NestingCycle,
    /// A default expression whose value was not supplied.
    MissingValue,
}

/// A configuration error: the text it is about (a directive, a field, a
/// record or an expression), and the record and field where it arose (empty
/// when it concerns no record, or a record's own attributes).
#[derive(Debug)]
pub struct ConfigError {
    pub kind: ErrorKind,
    pub subject: String,
    pub record: String,
    pub field: String,
}

/// The model of a `ConfigError`.
pub struct ErrorModel {
    pub kind: ErrorKind,
    pub subject: Seq<char>,
    pub record: Seq<char>,
    pub field: Seq<char>,
}

impl View for ConfigError {
    type V = ErrorModel;

    open spec fn view(&self) -> ErrorModel {
        ErrorModel {
            kind: self.kind,
            subject: self.subject@,
            record: self.record@,
            field: self.field@,
        }
    }
}

/// An error about `subject`, not yet placed in a record.
pub open spec fn error_of(kind: ErrorKind, subject: Seq<char>) -> ErrorModel {
    ErrorModel { kind, subject, record: Seq::empty(), field: Seq::empty() }
}

/// `e` placed in field `field` of record `record`, unless a deeper record
/// already placed it.
pub open spec fn located(e: ErrorModel, record: Seq<char>, field: Seq<char>) -> ErrorModel {
    if e.record.len() == 0 {
        ErrorModel { record, field, ..e }
    } else {
        e
    }
}

pub fn config_error(kind: ErrorKind, subject: &Vec<char>) -> (r: ConfigError)
    ensures
        r@ == error_of(kind, subject@),
{
    proof {
        reveal_strlit("");
    }
    ConfigError { kind, subject: string_of(subject), record: String::new(), field: String::new() }
}

/// Places `e` in field `field` of record `record` (see `located`).
pub fn locate(e: ConfigError, record: &String, field: &String) -> (r: ConfigError)
    ensures
        r@ == located(e@, record@, field@),
{
    if e.record.as_str().unicode_len() == 0 {
        ConfigError { kind: e.kind, subject: e.subject, record: record.clone(), field: field.clone() }
    } else {
        e
    }
}

/// Metadata of a record or a field, gathered from its attributes.
pub struct AttrMeta {
    pub docs: Vec<String>,
    pub default_source: Option<DefaultSource>,
    pub nesting_format: Option<NestingFormat>,
    pub require: bool,
    pub skip: bool,
    pub is_enum: bool,
    pub flatten: bool,
    pub rename: Option<String>,
    pub rename_rule: RenameRule,
}

/// The model of an `AttrMeta`.
pub struct MetaModel {
    pub docs: Seq<Seq<char>>,
    pub default_source: Option<DefaultModel>,
    pub nesting_format: Option<NestingFormat>,
    pub require: bool,
    pub skip: bool,
    pub is_enum: bool,
    pub flatten: bool,
    pub rename: Option<Seq<char>>,
    pub rename_rule: RenameRule,
}

impl View for AttrMeta {
    type V = MetaModel;

    open spec fn view(&self) -> MetaModel {
        MetaModel {
            docs: self.docs.deep_view(),
            default_source: match self.default_source {
                Some(d) => Some(d@),
                None => None,
            },
            nesting_format: self.nesting_format,
            require: self.require,
            skip: self.skip,
            is_enum: self.is_enum,
            flatten: self.flatten,
            rename: self.rename.deep_view(),
            rename_rule: self.rename_rule,
        }
    }
}

pub open spec fn empty_meta() -> MetaModel {
    MetaModel {
        docs: seq![],
        default_source: None,
        nesting_format: None,
        require: false,
        skip: false,
        is_enum: false,
        flatten: false,
        rename: None,
        rename_rule: RenameRule::AsDeclared,
    }
}

/// The value of an `x = value` directive, with white space and then double
/// quotes stripped.
pub open spec fn unquoted(s: Seq<char>) -> Seq<char> {
    trimmed_of(trimmed(s), '"')
}

/// The effect of one (trimmed) directive of a `toml_example(...)` attribute.
pub open spec fn toml_directive(m: MetaModel, d: Seq<char>) -> Result<MetaModel, ErrorModel> {
    if has_prefix(d, "default"@) {
        Ok(
            MetaModel {
                default_source: Some(
                    match after_first(d, '=') {
                        Some(v) => DefaultModel::Value(trimmed(v)),
                        None => DefaultModel::TypeDefault(None),
                    },
                ),
                ..m
            },
        )
    } else if has_prefix(d, "nesting"@) {
        match after_first(d, '=') {
            Some(v) => {
                if trimmed(v) == "prefix"@ {
                    Ok(MetaModel { nesting_format: Some(NestingFormat::Prefix), ..m })
                } else if trimmed(v) == "section"@ {
                    Ok(
                        MetaModel {
                            nesting_format: Some(NestingFormat::Section(NestingType::Record)),
                            ..m
                        },
                    )
                } else {
                    Err(error_of(ErrorKind::NestingStyle, trimmed(v)))
                }
            },
            None => Ok(
                MetaModel { nesting_format: Some(NestingFormat::Section(NestingType::Record)), ..m },
            ),
        }
    } else if d == "require"@ {
        Ok(MetaModel { require: true, ..m })
    } else if d == "skip"@ {
        Ok(MetaModel { skip: true, ..m })
    } else if d == "is_enum"@ || d == "enum"@ {
        Ok(MetaModel { is_enum: true, ..m })
    } else if d == "flatten"@ {
        Ok(MetaModel { flatten: true, ..m })
    } else {
        Err(error_of(ErrorKind::NotAllowedDirective, d))
    }
}

/// The effect of one (trimmed) directive of a `serde(...)` attribute; those
/// that do not concern the example are ignored.
pub open spec fn serde_directive(m: MetaModel, d: Seq<char>) -> Result<MetaModel, ErrorModel> {
    let m1 = if has_prefix(d, "default"@) {
        MetaModel {
            default_source: Some(
                match after_first(d, '=') {
                    Some(v) => DefaultModel::Function(unquoted(v)),
                    None => DefaultModel::TypeDefault(None),
                },
            ),
            ..m
        }
    } else {
        m
    };
    let m2 = if d == "skip_deserializing"@ || d == "skip"@ {
        MetaModel { skip: true, ..m1 }
    } else {
        m1
    };
    let m3 = if d == "flatten"@ {
        MetaModel { flatten: true, ..m2 }
    } else {
        m2
    };
    if has_prefix(d, "rename"@) {
        match after_first(d, '=') {
            Some(v) => if has_prefix(d, "rename_all"@) {
                match rule_named(unquoted(v)) {
                    Some(rule) => Ok(MetaModel { rename_rule: rule, ..m3 }),
                    None => Err(error_of(ErrorKind::RenameRuleName, unquoted(v))),
                }
            } else {
                Ok(MetaModel { rename: Some(unquoted(v)), ..m3 })
            },
            None => Ok(m3),
        }
    } else {
        Ok(m3)
    }
}

/// The effect of the directives `ds` (untrimmed), in order; the first error
/// stops it.
pub open spec fn directives(m: MetaModel, ds: Seq<Seq<char>>, serde: bool) -> Result<
    MetaModel,
    ErrorModel,
>
    decreases ds.len(),
{
    if ds.len() == 0 {
        Ok(m)
    } else {
        match directives(m, ds.drop_last(), serde) {
            Ok(m1) => if serde {
                serde_directive(m1, trimmed(ds.last()))
            } else {
                toml_directive(m1, trimmed(ds.last()))
            },
            Err(e) => Err(e),
        }
    }
}

/// The effect of one attribute.
pub open spec fn attr_effect(m: MetaModel, a: Attr) -> Result<MetaModel, ErrorModel> {
    match a {
        Attr::Doc(s) => Ok(MetaModel { docs: m.docs.push(s@), ..m }),
        Attr::Serde(t) => directives(m, pieces(t@, ','), true),
        Attr::TomlExample(t) => directives(m, pieces(t@, ','), false),
        Attr::Other => Ok(m),
    }
}

/// The metadata that the attributes `attrs` give, in order; the first error
/// stops it.
pub open spec fn meta_of(attrs: Seq<Attr>) -> Result<MetaModel, ErrorModel>
    decreases attrs.len(),
{
    if attrs.len() == 0 {
        Ok(empty_meta())
    } else {
        match meta_of(attrs.drop_last()) {
            Ok(m) => attr_effect(m, attrs.last()),
            Err(e) => Err(e),
        }
    }
}

pub open spec fn meta_result(r: Result<AttrMeta, ConfigError>) -> Result<MetaModel, ErrorModel> {
    match r {
        Ok(m) => Ok(m@),
        Err(e) => Err(e@),
    }
}

fn unquote(v: &Vec<char>) -> (r: Vec<char>)
    ensures
        r@ == unquoted(v@),
{
    let t = trim(v);
    trim_matches(&t, '"')
}

fn is_word(d: &Vec<char>, w: &str) -> (r: bool)
    ensures
        r == (d@ == w@),
{
    chars_eq(d, &chars_of(w))
}

fn begins(d: &Vec<char>, w: &str) -> (r: bool)
    ensures
        r == has_prefix(d@, w@),
{
    starts_with(d, &chars_of(w))
}

fn apply_toml_directive(m: &mut AttrMeta, d: &Vec<char>) -> (r: Result<(), ConfigError>)
    ensures
        match toml_directive(old(m)@, d@) {
            Ok(m1) => r is Ok && final(m)@ == m1,
            Err(e) => r matches Err(e1) && e1@ == e,
        },
{
    if begins(d, "default") {
        match split_after(d, '=') {
            Some(v) => {
                let t = trim(&v);
                m.default_source = Some(DefaultSource::DefaultValue(string_of(&t)));
            },
            None => {
                m.default_source = Some(DefaultSource::DefaultFn(None));
            },
        }
    } else if begins(d, "nesting") {
        match split_after(d, '=') {
            Some(v) => {
                let t = trim(&v);
                if is_word(&t, "prefix") {
                    m.nesting_format = Some(NestingFormat::Prefix);
                } else if is_word(&t, "section") {
                    m.nesting_format = Some(NestingFormat::Section(NestingType::Record));
                } else {
                    return Err(config_error(ErrorKind::NestingStyle, &t));
                }
            },
            None => {
                m.nesting_format = Some(NestingFormat::Section(NestingType::Record));
            },
        }
    } else if is_word(d, "require") {
        m.require = true;
    } else if is_word(d, "skip") {
        m.skip = true;
    } else if is_word(d, "is_enum") || is_word(d, "enum") {
        m.is_enum = true;
    } else if is_word(d, "flatten") {
        m.flatten = true;
    } else {
        return Err(config_error(ErrorKind::NotAllowedDirective, d));
    }
    Ok(())
}

fn apply_serde_directive(m: &mut AttrMeta, d: &Vec<char>) -> (r: Result<(), ConfigError>)
    ensures
        match serde_directive(old(m)@, d@) {
            Ok(m1) => r is Ok && final(m)@ == m1,
            Err(e) => r matches Err(e1) && e1@ == e,
        },
{
    let value = split_after(d, '=');
    if begins(d, "default") {
        match &value {
            Some(v) => {
                let f = unquote(v);
                m.default_source = Some(DefaultSource::SerdeDefaultFn(string_of(&f)));
            },
            None => {
                m.default_source = Some(DefaultSource::DefaultFn(None));
            },
        }
    }
    if is_word(d, "skip_deserializing") || is_word(d, "skip") {
        m.skip = true;
    }
    if is_word(d, "flatten") {
        m.flatten = true;
    }
    if begins(d, "rename") {
        if let Some(v) = &value {
            let name = unquote(v);
            if begins(d, "rename_all") {
                let s = string_of(&name);
                match RenameRule::from_str(s.as_str()) {
                    Some(rule) => {
                        m.rename_rule = rule;
                    },
                    None => {
                        return Err(config_error(ErrorKind::RenameRuleName, &name));
                    },
                }
            } else {
                m.rename = Some(string_of(&name));
            }
        }
    }
    Ok(())
}

fn apply_directives(m: &mut AttrMeta, tokens: &String, serde: bool) -> (r: Result<(), ConfigError>)
    ensures
        match directives(old(m)@, pieces(tokens@, ','), serde) {
            Ok(m1) => r is Ok && final(m)@ == m1,
            Err(e) => r matches Err(e1) && e1@ == e,
        },
{
    let chars = chars_of(tokens.as_str());
    let ds = split_unenclosed(&chars, ',');
    let ghost all = ds@.map_values(|p: Vec<char>| p@);
    let ghost start = m@;
    let mut i: usize = 0;
    while i < ds.len()
        invariant
            i <= ds.len(),
            all == ds@.map_values(|p: Vec<char>| p@),
            all == pieces(tokens@, ','),
            start == old(m)@,
            directives(start, all.subrange(0, i as int), serde) == Ok::<MetaModel, ErrorModel>(m@),
        decreases ds.len() - i,
    {
        assert(all.subrange(0, i as int + 1).drop_last() =~= all.subrange(0, i as int));
        let d = trim(&ds[i]);
        assert(d@ == trimmed(all[i as int]));
        assert(all.subrange(0, i as int + 1).last() == all[i as int]);
        let ghost mi = m@;
        let step = if serde {
            apply_serde_directive(m, &d)
        } else {
            apply_toml_directive(m, &d)
        };
        if let Err(e) = step {
            assert(directives(start, all.subrange(0, i as int + 1), serde) == Err::<MetaModel, ErrorModel>(e@));
            proof {
                lemma_directives_stop(start, all, i as int + 1, serde);
            }
            return Err(e);
        }
        i = i + 1;
    }
    assert(all.subrange(0, ds.len() as int) =~= all);
    Ok(())
}

proof fn lemma_directives_stop(m: MetaModel, ds: Seq<Seq<char>>, i: int, serde: bool)
    requires
        0 <= i <= ds.len(),
        directives(m, ds.subrange(0, i), serde) is Err,
    ensures
        directives(m, ds, serde) == directives(m, ds.subrange(0, i), serde),
    decreases ds.len() - i,
{
    if i < ds.len() {
        assert(ds.subrange(0, i + 1).drop_last() =~= ds.subrange(0, i));
        lemma_directives_stop(m, ds, i + 1, serde);
    } else {
        assert(ds.subrange(0, i) =~= ds);
    }
}

/// Reads the raw attributes `attrs` into metadata. Documentation lines are
/// kept in order; later directives override earlier ones of the same kind; the
/// first unrecognised directive, nesting style or rename rule is an error.
pub fn parse_attrs(attrs: &Vec<Attr>) -> (r: Result<AttrMeta, ConfigError>)
    ensures
        meta_result(r) == meta_of(attrs@),
{
    let mut m = AttrMeta {
        docs: Vec::new(),
        default_source: None,
        nesting_format: None,
        require: false,
        skip: false,
        is_enum: false,
        flatten: false,
        rename: None,
        rename_rule: RenameRule::AsDeclared,
    };
    assert(m@.docs =~= seq![]);
    let mut i: usize = 0;
    while i < attrs.len()
        invariant
            i <= attrs.len(),
            meta_of(attrs@.subrange(0, i as int)) == Ok::<MetaModel, ErrorModel>(m@),
        decreases attrs.len() - i,
    {
        assert(attrs@.subrange(0, i as int + 1).drop_last() =~= attrs@.subrange(0, i as int));
        match &attrs[i] {
            Attr::Doc(s) => {
                let ghost before = m@;
                m.docs.push(s.clone());
                assert(m@.docs =~= before.docs.push(s@));
            },
            Attr::Serde(t) => {
                if let Err(e) = apply_directives(&mut m, t, true) {
                    proof {
                        lemma_meta_stop(attrs@, i as int + 1);
                    }
                    return Err(e);
                }
            },
            Attr::TomlExample(t) => {
                if let Err(e) = apply_directives(&mut m, t, false) {
                    proof {
                        lemma_meta_stop(attrs@, i as int + 1);
                    }
                    return Err(e);
                }
            },
            Attr::Other => {},
        }
        i = i + 1;
    }
    assert(attrs@.subrange(0, attrs.len() as int) =~= attrs@);
    Ok(m)
}

proof fn lemma_meta_stop(attrs: Seq<Attr>, i: int)
    requires
        0 <= i <= attrs.len(),
        meta_of(attrs.subrange(0, i)) is Err,
    ensures
        meta_of(attrs) == meta_of(attrs.subrange(0, i)),
    decreases attrs.len() - i,
{
    if i < attrs.len() {
        assert(attrs.subrange(0, i + 1).drop_last() =~= attrs.subrange(0, i));
        lemma_meta_stop(attrs, i + 1);
    } else {
        assert(attrs.subrange(0, i) =~= attrs);
    }
}

} // verus!
