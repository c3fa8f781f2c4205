//! Classifying a field's declared type: its record name, its baseline example
//! value, whether it is optional, and the section kind it implies.
use vstd::prelude::*;
use vstd::string::*;
use crate::attrs::{NestingFormat, NestingType};
use crate::text::push_str;

verus! {

/// A declared type, as schema introspection hands it over.
#[derive(Debug)]
pub enum TypeDesc {
    /// A path type whose last segment has no generic arguments: `usize`,
    /// `String`, `Inner`.
    Plain(String),
    /// A path type whose last segment carries generic arguments: `Option<T>`,
    /// `Vec<T>`, `HashMap<K, V>`. An argument that is a type is `Some`; any
    /// other argument (a lifetime, a constant) is `None`.
    Generic(String, Vec<Option<TypeDesc>>),
    /// Any other type: a reference, an array, a tuple.
    Other,
}

/// What the classification of a type yields.
pub struct TypeInfo {
    /// The name of the innermost type, once `Option`, `Vec` and maps are unwrapped.
    pub name: Option<Seq<char>>,
    /// The baseline example value.
    pub default: Seq<char>,
    /// Whether the outermost type is `Option`.
    pub optional: bool,
    /// The nesting format, refined by what the type is.
    pub nesting: Option<NestingFormat>,
}

/// Names of the integer types.
pub open spec fn is_integer_name(t: Seq<char>) -> bool {
    ||| t == "usize"@
    ||| t == "u8"@
    ||| t == "u16"@
    ||| t == "u32"@
    ||| t == "u64"@
    ||| t == "u128"@
    ||| t == "isize"@
    ||| t == "i8"@
    ||| t == "i16"@
    ||| t == "i32"@
    ||| t == "i64"@
    ||| t == "i128"@
}

/// The baseline example value of a scalar type: `0` for integers, `0.0` for
/// floating-point numbers, `""` for anything else.
pub open spec fn baseline(t: Seq<char>) -> Seq<char> {
    if is_integer_name(t) {
        "0"@
    } else if t == "f32"@ || t == "f64"@ {
        "0.0"@
    } else {
        "\"\""@
    }
}

/// The example value of a list whose items have example value `item`.
pub open spec fn list_default(item: Seq<char>) -> Seq<char> {
    if item.len() == 0 {
        "[  ]"@
    } else {
        "[ "@ + item + ", ]"@
    }
}

/// Classifies `ty`. `default` is the example value that stands where the
/// type gives none; `nesting` is the nesting format asked for, which a list
/// or a map refines into its section kind.
pub open spec fn classify(ty: TypeDesc, default: Seq<char>, nesting: Option<NestingFormat>) -> TypeInfo
    decreases ty,
{
    match ty {
        TypeDesc::Plain(id) => TypeInfo {
            name: Some(id@),
            default: baseline(id@),
            optional: false,
            nesting,
        },
        TypeDesc::Generic(id, args) => {
            if id@ == "Option"@ {
                if args.len() > 0 && args[0] is Some {
                    let inner = classify(args[0]->Some_0, default, nesting);
                    TypeInfo { optional: true, ..inner }
                } else {
                    TypeInfo { name: None, default, optional: true, nesting }
                }
            } else if id@ == "Vec"@ {
                let nf = if nesting is Some {
                    Some(NestingFormat::Section(NestingType::Vector))
                } else {
                    None
                };
                if args.len() > 0 && args[0] is Some {
                    let inner = classify(args[0]->Some_0, Seq::empty(), None);
                    TypeInfo {
                        name: inner.name,
                        default: list_default(inner.default),
                        optional: false,
                        nesting: nf,
                    }
                } else {
                    TypeInfo { name: None, default, optional: false, nesting: nf }
                }
            } else if id@ == "HashMap"@ || id@ == "BTreeMap"@ {
                let nf = if nesting is Some {
                    Some(NestingFormat::Section(NestingType::Dict))
                } else {
                    None
                };
                if args.len() > 0 && args[args.len() - 1] is Some {
                    let inner = classify(args[args.len() - 1]->Some_0, Seq::empty(), None);
                    TypeInfo { name: inner.name, default, optional: false, nesting: nf }
                } else {
                    TypeInfo { name: None, default, optional: false, nesting: nf }
                }
            } else {
                TypeInfo { name: None, default, optional: false, nesting }
            }
        },
        TypeDesc::Other => TypeInfo { name: None, default, optional: false, nesting },
    }
}

fn is_named(s: &String, lit: &str) -> (r: bool)
    ensures
        r == (s@ == lit@),
{
    *s == String::from_str(lit)
}

/// The baseline example value of the type named `ty`.
pub fn default_value(ty: String) -> (r: String)
    ensures
        r@ == baseline(ty@),
{
    if is_named(&ty, "usize") || is_named(&ty, "u8") || is_named(&ty, "u16") || is_named(&ty, "u32")
        || is_named(&ty, "u64") || is_named(&ty, "u128") || is_named(&ty, "isize") || is_named(
        &ty,
        "i8",
    ) || is_named(&ty, "i16") || is_named(&ty, "i32") || is_named(&ty, "i64") || is_named(
        &ty,
        "i128",
    ) {
        String::from_str("0")
    } else if is_named(&ty, "f32") || is_named(&ty, "f64") {
        String::from_str("0.0")
    } else {
        String::from_str("\"\"")
    }
}

/// Classifies `ty` (see `classify`): returns the innermost type name, writes
/// the baseline example value into `default`, sets `optional` when the type is
/// an `Option`, and refines `nesting_format`.
pub fn parse_type(
    ty: &TypeDesc,
    default: &mut String,
    optional: &mut bool,
    nesting_format: &mut Option<NestingFormat>,
) -> (r: Option<String>)
    ensures
        r.deep_view() == classify(*ty, old(default)@, *old(nesting_format)).name,
        final(default)@ == classify(*ty, old(default)@, *old(nesting_format)).default,
        *final(optional) == (*old(optional) || classify(*ty, old(default)@, *old(nesting_format)).optional),
        *final(nesting_format) == classify(*ty, old(default)@, *old(nesting_format)).nesting,
    decreases ty,
{
    match ty {
        TypeDesc::Plain(id) => {
            *default = default_value(id.clone());
            Some(id.clone())
        },
        TypeDesc::Generic(id, args) => {
            if is_named(id, "Option") {
                *optional = true;
                if args.len() > 0 {
                    if let Some(inner) = &args[0] {
                        let mut inner_optional = false;
                        return parse_type(inner, default, &mut inner_optional, nesting_format);
                    }
                }
                None
            } else if is_named(id, "Vec") {
                if nesting_format.is_some() {
                    *nesting_format = Some(NestingFormat::Section(NestingType::Vector));
                }
                if args.len() > 0 {
                    if let Some(inner) = &args[0] {
                        let mut item_default = String::new();
                        let mut inner_optional = false;
                        let mut inner_nesting: Option<NestingFormat> = None;
                        let r = parse_type(inner, &mut item_default, &mut inner_optional, &mut inner_nesting);
                        if item_default.as_str().unicode_len() == 0 {
                            *default = String::from_str("[  ]");
                        } else {
                            let mut d = String::from_str("[ ");
                            push_str(&mut d, item_default.as_str());
                            push_str(&mut d, ", ]");
                            *default = d;
                        }
                        return r;
                    }
                }
                None
            } else if is_named(id, "HashMap") || is_named(id, "BTreeMap") {
                let mut r: Option<String> = None;
                if args.len() > 0 {
                    if let Some(inner) = &args[args.len() - 1] {
                        let mut item_default = String::new();
                        let mut inner_optional = false;
                        let mut inner_nesting: Option<NestingFormat> = None;
                        r = parse_type(inner, &mut item_default, &mut inner_optional, &mut inner_nesting);
                    }
                }
                if nesting_format.is_some() {
                    *nesting_format = Some(NestingFormat::Section(NestingType::Dict));
                }
                r
            } else {
                None
            }
        },
        TypeDesc::Other => None,
    }
}

} // verus!
