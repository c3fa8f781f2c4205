use toml_example::attrs::{NestingFormat, NestingType};
use toml_example::case::RenameRule;
use toml_example::scan::{find_unenclosed_char, split_unenclosed};
use toml_example::types::default_value;
use toml_example::{
    parse_attrs, parse_field, toml_example, toml_example_with_prefix, Attr, ConfigError, DefaultSource,
    DefaultValues, ErrorKind, FieldDecl, ParsedField, RecordDecl, Schema, TypeDesc, value_expression,
};

fn plain(t: &str) -> TypeDesc {
    TypeDesc::Plain(t.to_string())
}

fn generic(t: &str, args: Vec<TypeDesc>) -> TypeDesc {
    TypeDesc::Generic(t.to_string(), args.into_iter().map(Some).collect())
}

fn tx(s: &str) -> Attr {
    Attr::TomlExample(s.to_string())
}

fn serde(s: &str) -> Attr {
    Attr::Serde(s.to_string())
}

fn field(name: &str, ty: TypeDesc, attrs: Vec<Attr>) -> FieldDecl {
    FieldDecl { name: name.to_string(), ty, attrs }
}

fn record(name: &str, attrs: Vec<Attr>, fields: Vec<FieldDecl>) -> RecordDecl {
    RecordDecl { name: name.to_string(), attrs, fields }
}

fn render(records: Vec<RecordDecl>, name: &str) -> Result<String, ConfigError> {
    toml_example(&Schema { records }, name, &DefaultValues::new())
}

fn error_of(records: Vec<RecordDecl>, name: &str) -> (ErrorKind, String) {
    let e = render(records, name).unwrap_err();
    (e.kind, e.subject)
}

fn error_place(records: Vec<RecordDecl>, name: &str) -> (String, String) {
    let e = render(records, name).unwrap_err();
    (e.record, e.field)
}

fn place(record: &str, field: &str) -> (String, String) {
    (record.to_string(), field.to_string())
}

fn plan(ty: TypeDesc, attrs: Vec<Attr>) -> ParsedField {
    parse_field(None, &field("f", ty, attrs), RenameRule::AsDeclared).unwrap()
}

#[test]
fn scenario_two_scalar_fields() {
    let r = record(
        "R",
        vec![],
        vec![field("a", plain("i64"), vec![]), field("b", plain("String"), vec![])],
    );
    assert_eq!(render(vec![r], "R").unwrap(), "a = 0\n\nb = \"\"\n\n");
}

#[test]
fn scenario_optional_integer() {
    let r = record("R", vec![], vec![field("a", generic("Option", vec![plain("u32")]), vec![])]);
    assert_eq!(render(vec![r], "R").unwrap(), "# a = 0\n\n");
}

#[test]
fn scenario_list_of_integers() {
    let r = record("R", vec![], vec![field("a", generic("Vec", vec![plain("u8")]), vec![])]);
    assert_eq!(render(vec![r], "R").unwrap(), "a = [ 0, ]\n\n");
}

#[test]
fn scenario_nested_section() {
    let outer = record("Outer", vec![], vec![field("inner", plain("Inner"), vec![tx("nesting = section")])]);
    let inner = record("Inner", vec![], vec![field("a", plain("usize"), vec![])]);
    assert_eq!(render(vec![outer, inner], "Outer").unwrap(), "[inner]\na = 0\n\n");
}

#[test]
fn scenario_map_of_records() {
    let node = record(
        "Node",
        vec![],
        vec![field(
            "services",
            generic("BTreeMap", vec![plain("String"), plain("Service")]),
            vec![tx("nesting = section")],
        )],
    );
    let service = record("Service", vec![], vec![field("port", plain("u16"), vec![])]);
    assert_eq!(render(vec![node, service], "Node").unwrap(), "[services.example]\nport = 0\n\n");
}

#[test]
fn scenario_required_optional() {
    let r = record(
        "R",
        vec![],
        vec![field("a", generic("Option", vec![plain("i32")]), vec![tx("require")])],
    );
    assert_eq!(render(vec![r], "R").unwrap(), "a = 0\n\n");
}

fn mixed_schema() -> Vec<RecordDecl> {
    vec![
        record(
            "Config",
            vec![Attr::Doc(" The whole configuration".to_string())],
            vec![
                field("server", plain("Server"), vec![tx("nesting")]),
                field("name", plain("String"), vec![tx("default = \"demo\"")]),
                field("limits", plain("Limits"), vec![tx("nesting = prefix")]),
                field("workers", generic("Vec", vec![plain("Worker")]), vec![tx("nesting")]),
                field("ratio", plain("f64"), vec![]),
                field("backup", generic("Option", vec![plain("Server")]), vec![tx("nesting")]),
            ],
        ),
        record(
            "Server",
            vec![],
            vec![
                field("host", plain("String"), vec![tx("default = \"localhost\"")]),
                field("port", plain("u16"), vec![tx("default = 8080")]),
            ],
        ),
        record("Limits", vec![], vec![field("max", plain("u32"), vec![tx("default = 10")])]),
        record("Worker", vec![], vec![field("id", plain("u64"), vec![])]),
    ]
}

#[test]
fn rendering_twice_is_identical() {
    let first = render(mixed_schema(), "Config").unwrap();
    let second = render(mixed_schema(), "Config").unwrap();
    assert_eq!(first, second);
}

#[test]
fn leaf_and_prefix_fields_precede_sections() {
    let text = render(mixed_schema(), "Config").unwrap();
    assert_eq!(
        text,
        "# The whole configuration\nname = \"demo\"\n\nlimits.max = 10\n\nratio = 0.0\n\n[server]\nhost = \"localhost\"\n\nport = 8080\n\n[[workers]]\nid = 0\n\n# [backup]\n# host = \"localhost\"\n\n# port = 8080\n\n"
    );
    let first_header = text.find('[').unwrap();
    assert!(text.find("ratio").unwrap() < first_header);
    assert!(text.find("limits.max").unwrap() < first_header);
}

#[test]
fn rendered_document_parses_back() {
    let text = render(mixed_schema(), "Config").unwrap();
    let table = text.parse::<toml::Table>().unwrap();
    assert_eq!(table["name"].as_str(), Some("demo"));
    assert_eq!(table["limits"]["max"].as_integer(), Some(10));
    assert_eq!(table["ratio"].as_float(), Some(0.0));
    assert_eq!(table["server"]["host"].as_str(), Some("localhost"));
    assert_eq!(table["server"]["port"].as_integer(), Some(8080));
    assert_eq!(table["workers"][0]["id"].as_integer(), Some(0));
    assert!(!table.contains_key("backup"));
}

#[test]
fn optional_field_lines_are_commented() {
    let outer = record(
        "Outer",
        vec![],
        vec![
            field("a", plain("usize"), vec![]),
            field(
                "inner",
                generic("Option", vec![plain("Inner")]),
                vec![Attr::Doc(" the inner part".to_string()), tx("nesting")],
            ),
        ],
    );
    let inner = record(
        "Inner",
        vec![],
        vec![field("x", plain("usize"), vec![]), field("y", plain("String"), vec![])],
    );
    let text = render(vec![outer, inner], "Outer").unwrap();
    let own = &text[text.find("# the inner part").unwrap()..];
    for line in own.lines().filter(|l| !l.is_empty()) {
        assert!(line.starts_with("# "), "line {:?} is not commented", line);
    }
    assert_eq!(own, "# the inner part\n# [inner]\n# x = 0\n\n# y = \"\"\n\n");
}

#[test]
fn empty_record_renders_its_documentation_only() {
    let r = record("R", vec![Attr::Doc(" nothing here".to_string())], vec![]);
    assert_eq!(render(vec![r], "R").unwrap(), "# nothing here\n");
    let bare = record("Bare", vec![], vec![]);
    assert_eq!(render(vec![bare], "Bare").unwrap(), "");
}

#[test]
fn nested_with_prefix_and_label() {
    let inner = record("Inner", vec![Attr::Doc(" inner".to_string())], vec![field("a", plain("usize"), vec![])]);
    let schema = Schema { records: vec![inner] };
    let text = toml_example_with_prefix(&schema, "Inner", "top.inner", ("[", "]\n"), "# ", &DefaultValues::new());
    assert_eq!(text.unwrap(), "# inner\n[top.inner]\n# a = 0\n\n");
    let no_header = toml_example_with_prefix(&schema, "Inner", "top", ("", ""), "p.", &DefaultValues::new());
    assert_eq!(no_header.unwrap(), "# inner\np.a = 0\n\n");
}

#[test]
fn flattened_map_uses_key_only() {
    let main = record(
        "Main",
        vec![],
        vec![field(
            "nested",
            generic("HashMap", vec![plain("String"), plain("Item")]),
            vec![serde("flatten"), tx("nesting")],
        )],
    );
    let item = record("Item", vec![], vec![field("enabled", plain("bool"), vec![tx("default = false")])]);
    assert_eq!(render(vec![main, item], "Main").unwrap(), "[example]\nenabled = false\n\n");
}

#[test]
fn error_not_allowed_directive() {
    let r = record("R", vec![], vec![field("a", plain("u8"), vec![tx("bogus")])]);
    assert_eq!(error_of(vec![r], "R"), (ErrorKind::NotAllowedDirective, "bogus".to_string()));
    let r = record("R", vec![], vec![field("a", plain("u8"), vec![tx("bogus")])]);
    assert_eq!(error_place(vec![r], "R"), place("R", "a"));
}

#[test]
fn error_trailing_comma_is_an_empty_directive() {
    let r = record("R", vec![], vec![field("a", plain("u8"), vec![tx("require,")])]);
    assert_eq!(error_of(vec![r], "R"), (ErrorKind::NotAllowedDirective, String::new()));
}

#[test]
fn error_nesting_style() {
    let r = record("R", vec![], vec![field("a", plain("Inner"), vec![tx("nesting = inline")])]);
    assert_eq!(error_of(vec![r], "R"), (ErrorKind::NestingStyle, "inline".to_string()));
}

#[test]
fn error_rename_rule() {
    let r = record("R", vec![serde("rename_all = \"Title Case\"")], vec![]);
    assert_eq!(error_of(vec![r], "R"), (ErrorKind::RenameRuleName, "Title Case".to_string()));
    let r = record("R", vec![serde("rename_all = \"Title Case\"")], vec![]);
    assert_eq!(error_place(vec![r], "R"), place("R", ""));
}

#[test]
fn error_nesting_not_on_record() {
    let r = record("R", vec![], vec![field("a", TypeDesc::Other, vec![tx("nesting")])]);
    assert_eq!(error_of(vec![r], "R"), (ErrorKind::NestingNotOnRecord, "a".to_string()));
}

#[test]
fn error_flatten_collection() {
    let r = record(
        "R",
        vec![],
        vec![field("items", generic("Vec", vec![plain("Item")]), vec![tx("nesting, flatten")])],
    );
    let item = record("Item", vec![], vec![]);
    assert_eq!(error_of(vec![r, item], "R"), (ErrorKind::FlattenCollection, "items".to_string()));
}

#[test]
fn error_record_default_value() {
    let r = record("R", vec![tx("default = 3")], vec![field("a", plain("u8"), vec![])]);
    assert_eq!(error_of(vec![r], "R"), (ErrorKind::RecordDefaultValue, "R".to_string()));
}

#[test]
fn error_unknown_record() {
    let r = record("R", vec![], vec![field("a", plain("Missing"), vec![tx("nesting")])]);
    assert_eq!(error_of(vec![r], "R"), (ErrorKind::UnknownRecord, "Missing".to_string()));
    assert_eq!(error_of(vec![], "R"), (ErrorKind::UnknownRecord, "R".to_string()));
    assert_eq!(error_place(vec![], "R"), place("", ""));
    let r = record("R", vec![], vec![field("a", plain("Missing"), vec![tx("nesting")])]);
    assert_eq!(error_place(vec![r], "R"), place("R", "a"));
}

#[test]
fn error_nesting_cycle() {
    let a = record("A", vec![], vec![field("b", plain("B"), vec![tx("nesting")])]);
    let b = record("B", vec![], vec![field("a", plain("A"), vec![tx("nesting")])]);
    assert_eq!(error_of(vec![a, b], "A"), (ErrorKind::NestingCycle, "B".to_string()));
    let a = record("A", vec![], vec![field("b", plain("B"), vec![tx("nesting")])]);
    let b = record("B", vec![], vec![field("a", plain("A"), vec![tx("nesting")])]);
    assert_eq!(error_place(vec![a, b], "A"), place("A", "b"));
}

#[test]
fn error_missing_value() {
    let r = record("R", vec![], vec![field("a", plain("u8"), vec![serde("default")])]);
    assert_eq!(error_of(vec![r], "R"), (ErrorKind::MissingValue, "u8::default()".to_string()));
}

#[test]
fn rename_rules() {
    let name: Vec<char> = "max_open_files".chars().collect();
    let apply = |rule: &str| -> String {
        RenameRule::from_str(rule).unwrap().apply_to_field(&name).into_iter().collect()
    };
    assert_eq!(apply("UPPERCASE"), "MAX_OPEN_FILES");
    assert_eq!(apply("PascalCase"), "MaxOpenFiles");
    assert_eq!(apply("camelCase"), "maxOpenFiles");
    assert_eq!(apply("snake_case"), "max_open_files");
    assert_eq!(apply("kebab-case"), "max-open-files");
    assert_eq!(apply("SCREAMING-KEBAB-CASE"), "MAX-OPEN-FILES");
    assert_eq!(RenameRule::from_str("Train-Case"), None);
}

#[test]
fn rename_rule_applies_in_document() {
    let r = record(
        "R",
        vec![serde("rename_all = \"camelCase\"")],
        vec![
            field("read_timeout", plain("u64"), vec![]),
            field("write_timeout", plain("u64"), vec![serde("rename = \"wt\"")]),
        ],
    );
    assert_eq!(render(vec![r], "R").unwrap(), "readTimeout = 0\n\nwt = 0\n\n");
}

#[test]
fn splitting_respects_quotes_and_brackets() {
    let text: Vec<char> = "default = [1, 2], rename = \"a,b\", f(x, y), 'c,', e\\,f".chars().collect();
    let pieces: Vec<String> =
        split_unenclosed(&text, ',').into_iter().map(|p| p.into_iter().collect()).collect();
    assert_eq!(
        pieces,
        vec!["default = [1, 2]", " rename = \"a,b\"", " f(x, y)", " 'c,'", " e\\,f"]
    );
    let empty: Vec<char> = Vec::new();
    assert_eq!(split_unenclosed(&empty, ','), vec![Vec::<char>::new()]);
}

#[test]
fn scanner_reports_each_separator() {
    let mut finder = find_unenclosed_char(',');
    let hits: Vec<bool> = "a,(b,c),\"d,\"".chars().map(|c| finder.matches(c)).collect();
    assert_eq!(
        hits,
        vec![false, true, false, false, false, false, false, true, false, false, false, false]
    );
}

#[test]
fn baseline_values() {
    assert_eq!(default_value("u128".to_string()), "0");
    assert_eq!(default_value("f32".to_string()), "0.0");
    assert_eq!(default_value("bool".to_string()), "\"\"");
}

#[test]
fn map_key_from_literal_default() {
    let f = plan(generic("HashMap", vec![plain("String"), plain("S")]), vec![tx("nesting"), tx("default = \"my. key\"")]);
    assert_eq!(f.default_key(), "my-key");
    let g = plan(generic("HashMap", vec![plain("String"), plain("S")]), vec![tx("nesting"), tx("default = \"\"")]);
    assert_eq!(g.default_key(), "example");
    assert_eq!(f.label("a.b").unwrap(), "a.b.f.my-key");
}

#[test]
fn field_plan_prefix_and_format() {
    let f = plan(generic("Option", vec![plain("Inner")]), vec![tx("nesting = prefix")]);
    assert!(f.optional);
    assert_eq!(f.nesting_format, Some(NestingFormat::Prefix));
    assert_eq!(f.prefix(), "# f.");
    assert_eq!(f.label_format(false), (String::new(), String::new()));
    let v = plan(generic("Vec", vec![plain("Inner")]), vec![tx("nesting")]);
    assert_eq!(v.nesting_format, Some(NestingFormat::Section(NestingType::Vector)));
    assert_eq!(v.label_format(false), ("[[".to_string(), "]]\n".to_string()));
    assert_eq!(v.label_format(true), ("# [[".to_string(), "]]\n".to_string()));
    assert_eq!(v.label("").unwrap(), "f");
}

#[test]
fn later_default_directive_wins() {
    let f = plan(plain("String"), vec![tx("default = \"x\""), serde("default = \"make\"")]);
    assert!(matches!(f.default, DefaultSource::SerdeDefaultFn(ref s) if s == "make"));
    let g = plan(plain("String"), vec![serde("default"), tx("default = \"x\"")]);
    assert!(matches!(g.default, DefaultSource::DefaultValue(ref s) if s == "\"x\""));
}

#[test]
fn enum_values_are_quoted() {
    let r = record("R", vec![], vec![field("level", plain("Level"), vec![tx("enum, default")])]);
    let values: DefaultValues = vec![("Level::default()".to_string(), "Info".to_string())];
    let text = toml_example(&Schema { records: vec![r] }, "R", &values).unwrap();
    assert_eq!(text, "level = \"Info\"\n\n");
}

#[test]
fn value_expressions_of_fields() {
    let rec = record(
        "Conf",
        vec![serde("default = \"base\"")],
        vec![
            field("a", plain("u8"), vec![]),
            field("b", plain("u8"), vec![serde("default")]),
            field("c", plain("u8"), vec![tx("default = 4")]),
        ],
    );
    let meta = parse_attrs(&rec.attrs).unwrap();
    let exprs: Vec<Option<String>> = rec
        .fields
        .iter()
        .map(|f| {
            let plan = parse_field(meta.default_source.as_ref(), f, meta.rename_rule).unwrap();
            value_expression(&rec, meta.default_source.as_ref(), &plan, &f.name)
        })
        .collect();
    assert_eq!(exprs, vec![Some("base().a".to_string()), Some("u8::default()".to_string()), None]);
}

#[test]
fn error_in_nested_record_names_the_nested_field() {
    let outer = record("Outer", vec![], vec![field("inner", plain("Inner"), vec![tx("nesting")])]);
    let inner = record("Inner", vec![], vec![field("x", plain("u8"), vec![tx("wrong")])]);
    let e = render(vec![outer, inner], "Outer").unwrap_err();
    assert_eq!((e.kind, e.subject, e.record, e.field), (ErrorKind::NotAllowedDirective, "wrong".to_string(), "Inner".to_string(), "x".to_string()));
}

#[test]
fn optional_section_comments_out_every_depth() {
    let outer = record(
        "Outer",
        vec![],
        vec![field("inner", generic("Option", vec![plain("Inner")]), vec![tx("nesting")])],
    );
    let inner = record("Inner", vec![], vec![field("deep", plain("Deep"), vec![tx("nesting")])]);
    let deep = record("Deep", vec![], vec![field("x", plain("usize"), vec![])]);
    let text = render(vec![outer, inner, deep], "Outer").unwrap();
    assert_eq!(text, "# [inner]\n# [inner.deep]\n# x = 0\n\n");
    assert!(text.parse::<toml::Table>().unwrap().is_empty());
}

#[test]
fn optional_prefix_record_comments_out_its_sections() {
    let outer = record(
        "Outer",
        vec![],
        vec![field("inner", generic("Option", vec![plain("Inner")]), vec![tx("nesting = prefix")])],
    );
    let inner = record(
        "Inner",
        vec![],
        vec![field("deep", plain("Deep"), vec![tx("nesting")]), field("y", plain("u8"), vec![])],
    );
    let deep = record("Deep", vec![], vec![field("x", plain("usize"), vec![])]);
    let text = render(vec![outer, inner, deep], "Outer").unwrap();
    assert_eq!(text, "# inner.y = 0\n\n# [inner.deep]\n# x = 0\n\n");
    assert!(text.parse::<toml::Table>().unwrap().is_empty());
}

#[test]
fn prefix_nesting_keeps_the_outer_path() {
    let outer = record("Outer", vec![], vec![field("inner", plain("Inner"), vec![tx("nesting = prefix")])]);
    let inner = record("Inner", vec![], vec![field("deep", plain("Deep"), vec![tx("nesting = prefix")])]);
    let deep = record("Deep", vec![], vec![field("x", plain("usize"), vec![])]);
    let text = render(vec![outer, inner, deep], "Outer").unwrap();
    assert_eq!(text, "inner.deep.x = 0\n\n");
    assert_eq!(text.parse::<toml::Table>().unwrap()["inner"]["deep"]["x"].as_integer(), Some(0));
}

#[test]
fn sections_of_a_prefix_record_follow_the_parent_keys() {
    let outer = record(
        "Outer",
        vec![],
        vec![
            field("inner", plain("Inner"), vec![tx("nesting = prefix")]),
            field("z", plain("u8"), vec![]),
        ],
    );
    let inner = record(
        "Inner",
        vec![],
        vec![field("sec", plain("Sec"), vec![tx("nesting")]), field("y", plain("u8"), vec![])],
    );
    let sec = record("Sec", vec![], vec![field("a", plain("u8"), vec![])]);
    let text = render(vec![outer, inner, sec], "Outer").unwrap();
    assert_eq!(text, "inner.y = 0\n\nz = 0\n\n[inner.sec]\na = 0\n\n");
    let table = text.parse::<toml::Table>().unwrap();
    assert_eq!(table["z"].as_integer(), Some(0));
    assert_eq!(table["inner"]["sec"]["a"].as_integer(), Some(0));
}

#[test]
fn flattened_record_keeps_the_key_path() {
    let outer = record("Outer", vec![], vec![field("inner", plain("Inner"), vec![tx("nesting = prefix")])]);
    let inner = record("Inner", vec![], vec![field("flat", plain("Flat"), vec![tx("nesting, flatten")])]);
    let flat = record("Flat", vec![], vec![field("v", plain("u8"), vec![])]);
    assert_eq!(render(vec![outer, inner, flat], "Outer").unwrap(), "inner.v = 0\n\n");
}
