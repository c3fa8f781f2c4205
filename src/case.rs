//! Renaming rules that turn a field's declared name into its key in the document.
use vstd::prelude::*;
use vstd::string::*;
use crate::text::{replace_char, replaced};

verus! {

/// A casing convention applied to every field name that has no explicit rename.
#[derive(Clone, Copy, Debug, PartialEq, Eq, Structural)]
pub enum RenameRule {
    /// Names are kept as declared.
    AsDeclared,
    /// `lowercase`: field names are already lower case, so they are kept.
    LowerCase,
    /// `UPPERCASE`
    UpperCase,
    /// `PascalCase`
    PascalCase,
    /// `camelCase`
    CamelCase,
    /// `snake_case`: field names are already snake case, so they are kept.
    SnakeCase,
    /// `SCREAMING_SNAKE_CASE`
    ScreamingSnakeCase,
    /// `kebab-case`
    KebabCase,
    /// `SCREAMING-KEBAB-CASE`
    ScreamingKebabCase,
}

pub open spec fn ascii_upper(c: char) -> char {
    if 'a' <= c && c <= 'z' {
        ((c as u32) - 32) as char
    } else {
        c
    }
}

pub open spec fn ascii_lower(c: char) -> char {
    if 'A' <= c && c <= 'Z' {
        ((c as u32) + 32) as char
    } else {
        c
    }
}

/// `s` with every ASCII lower-case letter made upper case.
pub open spec fn upper(s: Seq<char>) -> Seq<char> {
    s.map_values(|c: char| ascii_upper(c))
}

/// `s` in PascalCase: underscores dropped, and the first character and every
/// character after an underscore made upper case.
pub open spec fn pascal(s: Seq<char>) -> Seq<char>
    decreases s.len(),
{
    if s.len() == 0 {
        s
    } else {
        let p = pascal(s.drop_last());
        let i = s.len() - 1;
        if s[i] == '_' {
            p
        } else if i == 0 || s[i - 1] == '_' {
            p.push(ascii_upper(s[i]))
        } else {
            p.push(s[i])
        }
    }
}

/// `s` in camelCase: as PascalCase, with the first character made lower case.
pub open spec fn camel(s: Seq<char>) -> Seq<char> {
    let p = pascal(s);
    if p.len() == 0 {
        p
    } else {
        p.update(0, ascii_lower(p[0]))
    }
}

/// The rule named `s`, as written in a `rename_all` directive.
pub open spec fn rule_named(s: Seq<char>) -> Option<RenameRule> {
    if s == "lowercase"@ {
        Some(RenameRule::LowerCase)
    } else if s == "UPPERCASE"@ {
        Some(RenameRule::UpperCase)
    } else if s == "PascalCase"@ {
        Some(RenameRule::PascalCase)
    } else if s == "camelCase"@ {
        Some(RenameRule::CamelCase)
    } else if s == "snake_case"@ {
        Some(RenameRule::SnakeCase)
    } else if s == "SCREAMING_SNAKE_CASE"@ {
        Some(RenameRule::ScreamingSnakeCase)
    } else if s == "kebab-case"@ {
        Some(RenameRule::KebabCase)
    } else if s == "SCREAMING-KEBAB-CASE"@ {
        Some(RenameRule::ScreamingKebabCase)
    } else {
        None
    }
}

/// The key that `rule` makes of the field name `s`.
pub open spec fn apply_rule(rule: RenameRule, s: Seq<char>) -> Seq<char> {
    match rule {
        RenameRule::AsDeclared | RenameRule::LowerCase | RenameRule::SnakeCase => s,
        RenameRule::UpperCase | RenameRule::ScreamingSnakeCase => upper(s),
        RenameRule::PascalCase => pascal(s),
        RenameRule::CamelCase => camel(s),
        RenameRule::KebabCase => replaced(s, '_', '-'),
        RenameRule::ScreamingKebabCase => replaced(upper(s), '_', '-'),
    }
}

fn to_upper_char(c: char) -> (r: char)
    ensures
        r == ascii_upper(c),
{
    if 'a' <= c && c <= 'z' {
        ((c as u8) - 32) as char
    } else {
        c
    }
}

fn to_lower_char(c: char) -> (r: char)
    ensures
        r == ascii_lower(c),
{
    if 'A' <= c && c <= 'Z' {
        ((c as u8) + 32) as char
    } else {
        c
    }
}

fn to_upper(v: &Vec<char>) -> (r: Vec<char>)
    ensures
        r@ == upper(v@),
{
    let mut r: Vec<char> = Vec::new();
    let mut i: usize = 0;
    while i < v.len()
        invariant
            i <= v.len(),
            r@ == upper(v@.subrange(0, i as int)),
        decreases v.len() - i,
    {
        r.push(to_upper_char(v[i]));
        i = i + 1;
        assert(r@ =~= upper(v@.subrange(0, i as int)));
    }
    assert(v@ =~= v@.subrange(0, v.len() as int));
    r
}

fn to_pascal(v: &Vec<char>) -> (r: Vec<char>)
    ensures
        r@ == pascal(v@),
{
    let mut r: Vec<char> = Vec::new();
    let mut capitalize = true;
    let mut i: usize = 0;
    while i < v.len()
        invariant
            i <= v.len(),
            r@ == pascal(v@.subrange(0, i as int)),
            capitalize == (i == 0 || v@[i - 1] == '_'),
        decreases v.len() - i,
    {
        let ghost s = v@.subrange(0, i as int + 1);
        assert(s.drop_last() =~= v@.subrange(0, i as int));
        let c = v[i];
        if c == '_' {
            capitalize = true;
        } else if capitalize {
            r.push(to_upper_char(c));
            capitalize = false;
        } else {
            r.push(c);
        }
        i = i + 1;
    }
    assert(v@ =~= v@.subrange(0, v.len() as int));
    r
}

impl RenameRule {
    /// The rule named `name`, or `None` when no rule has that name.
    pub fn from_str(name: &str) -> (r: Option<RenameRule>)
        ensures
            r == rule_named(name@),
    {
        let s = String::from_str(name);
        if s == String::from_str("lowercase") {
            Some(RenameRule::LowerCase)
        } else if s == String::from_str("UPPERCASE") {
            Some(RenameRule::UpperCase)
        } else if s == String::from_str("PascalCase") {
            Some(RenameRule::PascalCase)
        } else if s == String::from_str("camelCase") {
            Some(RenameRule::CamelCase)
        } else if s == String::from_str("snake_case") {
            Some(RenameRule::SnakeCase)
        } else if s == String::from_str("SCREAMING_SNAKE_CASE") {
            Some(RenameRule::ScreamingSnakeCase)
        } else if s == String::from_str("kebab-case") {
            Some(RenameRule::KebabCase)
        } else if s == String::from_str("SCREAMING-KEBAB-CASE") {
            Some(RenameRule::ScreamingKebabCase)
        } else {
            None
        }
    }

    /// The key this rule makes of the field name `field`.
    pub fn apply_to_field(self, field: &Vec<char>) -> (r: Vec<char>)
        ensures
            r@ == apply_rule(self, field@),
    {
        match self {
            RenameRule::AsDeclared | RenameRule::LowerCase | RenameRule::SnakeCase => field.clone(),
            RenameRule::UpperCase | RenameRule::ScreamingSnakeCase => to_upper(field),
            RenameRule::PascalCase => to_pascal(field),
            RenameRule::CamelCase => {
                let mut p = to_pascal(field);
                if p.len() > 0 {
                    let c = to_lower_char(p[0]);
                    p.set(0, c);
                }
                p
            },
            RenameRule::KebabCase => replace_char(field, '_', '-'),
            RenameRule::ScreamingKebabCase => {
                let u = to_upper(field);
                replace_char(&u, '_', '-')
            },
        }
    }
}

} // verus!
