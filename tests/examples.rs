use toml_example::{toml_example, Attr, DefaultValues, FieldDecl, RecordDecl, Schema, TypeDesc};

fn plain(t: &str) -> TypeDesc {
    TypeDesc::Plain(t.to_string())
}

fn generic(t: &str, args: Vec<TypeDesc>) -> TypeDesc {
    TypeDesc::Generic(t.to_string(), args.into_iter().map(Some).collect())
}

fn doc(s: &str) -> Attr {
    Attr::Doc(s.to_string())
}

fn tx(s: &str) -> Attr {
    Attr::TomlExample(s.to_string())
}

fn serde(s: &str) -> Attr {
    Attr::Serde(s.to_string())
}

fn field(name: &str, ty: TypeDesc, attrs: Vec<Attr>) -> FieldDecl {
    FieldDecl { name: name.to_string(), ty, attrs }
}

fn record(name: &str, attrs: Vec<Attr>, fields: Vec<FieldDecl>) -> RecordDecl {
    RecordDecl { name: name.to_string(), attrs, fields }
}

fn values(pairs: &[(&str, &str)]) -> DefaultValues {
    pairs.iter().map(|(e, v)| (e.to_string(), v.to_string())).collect()
}

fn render_with(records: Vec<RecordDecl>, name: &str, vals: &DefaultValues) -> String {
    toml_example(&Schema { records }, name, vals).unwrap()
}

fn render(records: Vec<RecordDecl>, name: &str) -> String {
    render_with(records, name, &Vec::new())
}

fn parse(text: &str) -> toml::Table {
    text.parse::<toml::Table>().unwrap()
}

fn inner_a() -> RecordDecl {
    record(
        "Inner",
        vec![doc(" Inner is a config live in Outer")],
        vec![field("a", plain("usize"), vec![doc(" Inner.a should be a number")])],
    )
}

fn service(port_attrs: Vec<Attr>) -> RecordDecl {
    let mut attrs = vec![doc(" port should be a number")];
    attrs.extend(port_attrs);
    record(
        "Service",
        vec![doc(" Service with specific port")],
        vec![field("port", plain("usize"), attrs)],
    )
}

fn node(ty: TypeDesc, extra: Vec<Attr>) -> RecordDecl {
    let mut attrs = vec![doc(" Services are running in the node"), tx("nesting")];
    attrs.extend(extra);
    record("Node", vec![], vec![field("services", ty, attrs)])
}

#[test]
fn basic() {
    let config = record(
        "Config",
        vec![],
        vec![
            field("a", plain("usize"), vec![doc(" Config.a should be a number")]),
            field("b", plain("String"), vec![doc(" Config.b should be a string")]),
        ],
    );
    let text = render(vec![config], "Config");
    assert_eq!(
        text,
        "# Config.a should be a number\na = 0\n\n# Config.b should be a string\nb = \"\"\n\n"
    );
    let table = parse(&text);
    assert_eq!(table["a"].as_integer(), Some(0));
    assert_eq!(table["b"].as_str(), Some(""));
}

#[test]
fn option() {
    let config = record(
        "Config",
        vec![],
        vec![
            field(
                "a",
                generic("Option", vec![plain("usize")]),
                vec![doc(" Config.a is an optional number")],
            ),
            field(
                "b",
                generic("Option", vec![plain("String")]),
                vec![doc(" Config.b is an optional string")],
            ),
        ],
    );
    let text = render(vec![config], "Config");
    assert_eq!(
        text,
        "# Config.a is an optional number\n# a = 0\n\n# Config.b is an optional string\n# b = \"\"\n\n"
    );
    assert!(parse(&text).is_empty());
}

#[test]
fn vec() {
    let config = record(
        "Config",
        vec![],
        vec![
            field(
                "a",
                generic("Vec", vec![plain("usize")]),
                vec![doc(" Config.a is a list of number")],
            ),
            field(
                "b",
                generic("Vec", vec![plain("String")]),
                vec![doc(" Config.b is a list of string")],
            ),
            field(
                "c",
                generic("Vec", vec![generic("Option", vec![plain("usize")])]),
                vec![doc(" Config.c")],
            ),
            field(
                "d",
                generic("Option", vec![generic("Vec", vec![plain("usize")])]),
                vec![doc(" Config.d")],
            ),
        ],
    );
    let text = render(vec![config], "Config");
    assert_eq!(
        text,
        "# Config.a is a list of number\na = [ 0, ]\n\n# Config.b is a list of string\nb = [ \"\", ]\n\n# Config.c\nc = [ 0, ]\n\n# Config.d\n# d = [ 0, ]\n\n"
    );
    let table = parse(&text);
    assert_eq!(table["a"].as_array().unwrap().len(), 1);
    assert!(!table.contains_key("d"));
}

#[test]
fn struct_doc() {
    let config = record(
        "Config",
        vec![
            doc(" Config is to arrange something or change the controls on a computer or other device"),
            doc(" so that it can be used in a particular way"),
        ],
        vec![field(
            "a",
            plain("usize"),
            vec![
                doc(" Config.a should be a number"),
                doc(" the number should be greater or equal zero"),
            ],
        )],
    );
    let text = render(vec![config], "Config");
    assert_eq!(
        text,
        "# Config is to arrange something or change the controls on a computer or other device\n# so that it can be used in a particular way\n# Config.a should be a number\n# the number should be greater or equal zero\na = 0\n\n"
    );
    assert_eq!(parse(&text)["a"].as_integer(), Some(0));
}

#[test]
fn serde_default() {
    let config = record(
        "Config",
        vec![],
        vec![
            field(
                "a",
                plain("usize"),
                vec![doc(" Config.a should be a number"), serde("default = \"default_a\"")],
            ),
            field(
                "b",
                plain("String"),
                vec![doc(" Config.b should be a string"), serde("default = \"default_b\"")],
            ),
            field("c", plain("usize"), vec![doc(" Config.c should be a number"), serde("default")]),
            field("d", plain("String"), vec![doc(" Config.d should be a string"), serde("default")]),
            field("e", generic("Option", vec![plain("usize")]), vec![serde("default")]),
        ],
    );
    let vals = values(&[
        ("default_a()", "7"),
        ("default_b()", "\"default\""),
        ("usize::default()", "0"),
        ("String::default()", "\"\""),
    ]);
    assert_eq!(
        render_with(vec![config], "Config", &vals),
        "# Config.a should be a number\na = 7\n\n# Config.b should be a string\nb = \"default\"\n\n# Config.c should be a number\nc = 0\n\n# Config.d should be a string\nd = \"\"\n\n# e = 0\n\n"
    );
}

#[test]
fn toml_example_default() {
    let config = record(
        "Config",
        vec![],
        vec![
            field("a", plain("usize"), vec![doc(" Config.a should be a number"), tx("default = 7")]),
            field(
                "b",
                plain("String"),
                vec![
                    doc(" Config.b should be a string"),
                    tx("default = \"default\""),
                    serde("default = \"default_str\""),
                ],
            ),
            field(
                "c",
                plain("String"),
                vec![serde("default = \"default_str\""), tx("default = \"default\"")],
            ),
            field("e", generic("Vec", vec![plain("String")]), vec![tx("default = [\"default\",]")]),
            field(
                "f",
                plain("String"),
                vec![tx("default =\n\"super looooooooooooooooooooooooooooooooooooooooooooooooooooooooooooong string\"")],
            ),
            field(
                "g",
                generic("Vec", vec![plain("String")]),
                vec![tx("default =\n[\"super looooooooooooooooooooooooooooooooooooooooooooooooooooooooooooong string\",\n\"second\", \"third\",]")],
            ),
            field(
                "color",
                plain("String"),
                vec![doc(" Config.color should be a hex color code"), tx("default = \"#FAFAFA\"")],
            ),
        ],
    );
    let vals = values(&[("default_str()", "\"seven\"")]);
    assert_eq!(
        render_with(vec![config], "Config", &vals),
        "# Config.a should be a number\na = 7\n\n# Config.b should be a string\nb = \"seven\"\n\nc = \"default\"\n\ne = [\"default\",]\n\nf = \"super looooooooooooooooooooooooooooooooooooooooooooooooooooooooooooong string\"\n\ng = [\"super looooooooooooooooooooooooooooooooooooooooooooooooooooooooooooong string\",\n\"second\", \"third\",]\n\n# Config.color should be a hex color code\ncolor = \"#FAFAFA\"\n\n"
    );
}

#[test]
fn struct_serde_default() {
    let foo = record(
        "Foo",
        vec![serde("default")],
        vec![
            field("bar", plain("String"), vec![]),
            field("x", plain("usize"), vec![serde("default")]),
        ],
    );
    let vals = values(&[("Foo::default().bar", "\"hello world\""), ("usize::default()", "0")]);
    assert_eq!(render_with(vec![foo], "Foo", &vals), "bar = \"hello world\"\n\nx = 0\n\n");
}

#[test]
fn struct_serde_default_fn() {
    let foo = record(
        "Foo",
        vec![serde("default = \"default\"")],
        vec![
            field("bar", plain("String"), vec![]),
            field("baz", plain("String"), vec![tx("default = \"field override\"")]),
        ],
    );
    let vals = values(&[("default().bar", "\"hello world\""), ("default().baz", "\"custom default\"")]);
    assert_eq!(
        render_with(vec![foo], "Foo", &vals),
        "bar = \"hello world\"\n\nbaz = \"field override\"\n\n"
    );
}

#[test]
fn struct_toml_example_default() {
    let foo = record(
        "Foo",
        vec![tx("default")],
        vec![
            field("yay", TypeDesc::Other, vec![serde("default = \"paru\"")]),
            field("aur_is_useful", plain("bool"), vec![]),
        ],
    );
    let vals = values(&[
        ("paru()", "\"no, paru!\""),
        ("Foo::default().yay", "\"yay!\""),
        ("Foo::default().aur_is_useful", "true"),
    ]);
    assert_eq!(
        render_with(vec![foo], "Foo", &vals),
        "yay = \"no, paru!\"\n\naur_is_useful = true\n\n"
    );
}

#[test]
fn no_nesting() {
    let outer = record(
        "Outer",
        vec![],
        vec![field("inner", plain("Inner"), vec![doc(" Outer.inner is a complex struct")])],
    );
    assert_eq!(
        render(vec![outer, inner_a()], "Outer"),
        "# Outer.inner is a complex struct\ninner = \"\"\n\n"
    );
}

fn outer_with(ty: TypeDesc, nesting: &str) -> RecordDecl {
    record(
        "Outer",
        vec![],
        vec![field("inner", ty, vec![doc(" Outer.inner is a complex struct"), tx(nesting)])],
    )
}

#[test]
fn nesting() {
    let text = render(vec![outer_with(plain("Inner"), "nesting"), inner_a()], "Outer");
    assert_eq!(
        text,
        "# Outer.inner is a complex struct\n# Inner is a config live in Outer\n[inner]\n# Inner.a should be a number\na = 0\n\n"
    );
    assert_eq!(parse(&text)["inner"]["a"].as_integer(), Some(0));
}

#[test]
fn nesting_by_section() {
    let text = render(vec![outer_with(plain("Inner"), "nesting = section"), inner_a()], "Outer");
    assert_eq!(
        text,
        "# Outer.inner is a complex struct\n# Inner is a config live in Outer\n[inner]\n# Inner.a should be a number\na = 0\n\n"
    );
    assert_eq!(parse(&text)["inner"]["a"].as_integer(), Some(0));
}

#[test]
fn nesting_by_prefix() {
    let text = render(vec![outer_with(plain("Inner"), "nesting = prefix"), inner_a()], "Outer");
    assert_eq!(
        text,
        "# Outer.inner is a complex struct\n# Inner is a config live in Outer\n# Inner.a should be a number\ninner.a = 0\n\n"
    );
    assert_eq!(parse(&text)["inner"]["a"].as_integer(), Some(0));
}

#[test]
fn nesting_vector() {
    let text = render(
        vec![service(vec![]), node(generic("Vec", vec![plain("Service")]), vec![])],
        "Node",
    );
    assert_eq!(
        text,
        "# Services are running in the node\n# Service with specific port\n[[services]]\n# port should be a number\nport = 0\n\n"
    );
    assert_eq!(parse(&text)["services"][0]["port"].as_integer(), Some(0));
}

#[test]
fn nesting_hashmap() {
    let text = render(
        vec![service(vec![]), node(generic("HashMap", vec![plain("String"), plain("Service")]), vec![])],
        "Node",
    );
    assert_eq!(
        text,
        "# Services are running in the node\n# Service with specific port\n[services.example]\n# port should be a number\nport = 0\n\n"
    );
    assert_eq!(parse(&text)["services"]["example"]["port"].as_integer(), Some(0));
}

#[test]
fn optional_nesting() {
    let text = render(
        vec![outer_with(generic("Option", vec![plain("Inner")]), "nesting"), inner_a()],
        "Outer",
    );
    assert_eq!(
        text,
        "# Outer.inner is a complex struct\n# Inner is a config live in Outer\n# [inner]\n# Inner.a should be a number\n# a = 0\n\n"
    );
    assert!(parse(&text).is_empty());
}

#[test]
fn optional_nesting_by_section() {
    let text = render(
        vec![outer_with(generic("Option", vec![plain("Inner")]), "nesting = section"), inner_a()],
        "Outer",
    );
    assert_eq!(
        text,
        "# Outer.inner is a complex struct\n# Inner is a config live in Outer\n# [inner]\n# Inner.a should be a number\n# a = 0\n\n"
    );
    assert!(parse(&text).is_empty());
}

#[test]
fn optional_nesting_by_prefix() {
    let text = render(
        vec![outer_with(generic("Option", vec![plain("Inner")]), "nesting = prefix"), inner_a()],
        "Outer",
    );
    assert_eq!(
        text,
        "# Outer.inner is a complex struct\n# Inner is a config live in Outer\n# Inner.a should be a number\n# inner.a = 0\n\n"
    );
    assert!(parse(&text).is_empty());
}

#[test]
fn optional_nesting_vector() {
    let ty = generic("Option", vec![generic("Vec", vec![plain("Service")])]);
    let text = render(vec![service(vec![]), node(ty, vec![])], "Node");
    assert_eq!(
        text,
        "# Services are running in the node\n# Service with specific port\n# [[services]]\n# port should be a number\n# port = 0\n\n"
    );
    assert!(parse(&text).is_empty());
}

#[test]
fn optional_nesting_hashmap() {
    let ty = generic("Option", vec![generic("HashMap", vec![plain("String"), plain("Service")])]);
    let text = render(vec![service(vec![]), node(ty, vec![])], "Node");
    assert_eq!(
        text,
        "# Services are running in the node\n# Service with specific port\n# [services.example]\n# port should be a number\n# port = 0\n\n"
    );
    assert!(parse(&text).is_empty());
}

#[test]
fn nesting_hashmap_with_default_name() {
    let ty = generic("HashMap", vec![plain("String"), plain("Service")]);
    let text = render(
        vec![service(vec![tx("default = 80")]), node(ty, vec![tx("default = http")])],
        "Node",
    );
    assert_eq!(
        text,
        "# Services are running in the node\n# Service with specific port\n[services.http]\n# port should be a number\nport = 80\n\n"
    );
    assert_eq!(parse(&text)["services"]["http"]["port"].as_integer(), Some(80));
}

#[test]
fn nesting_hashmap_with_dash_name() {
    let ty = generic("HashMap", vec![plain("String"), plain("Service")]);
    let text = render(
        vec![service(vec![tx("default = 80")]), node(ty, vec![tx("default = http.01")])],
        "Node",
    );
    assert_eq!(
        text,
        "# Services are running in the node\n# Service with specific port\n[services.http-01]\n# port should be a number\nport = 80\n\n"
    );
    assert_eq!(parse(&text)["services"]["http-01"]["port"].as_integer(), Some(80));
}

#[test]
fn recursive_nesting() {
    let outer = record("Outer", vec![], vec![field("_middle", plain("Middle"), vec![tx("nesting")])]);
    let middle = record("Middle", vec![], vec![field("_inner", plain("Inner"), vec![tx("nesting")])]);
    let inner = record("Inner", vec![], vec![field("_value", plain("usize"), vec![])]);
    let text = render(vec![outer, middle, inner], "Outer");
    assert_eq!(parse(&text)["_middle"]["_inner"]["_value"].as_integer(), Some(0));
    assert_eq!(text, "[_middle]\n[_middle._inner]\n_value = 0\n\n");
}

#[test]
fn recursive_nesting_and_flatten() {
    let outer = record(
        "Outer",
        vec![],
        vec![
            field("middle", plain("Middle"), vec![tx("nesting")]),
            field("flag", plain("bool"), vec![tx("default = false"), doc(" Some toggle")]),
        ],
    );
    let middle = record(
        "Middle",
        vec![],
        vec![field(
            "inner",
            plain("Inner"),
            vec![serde("flatten"), tx("nesting"), doc(" Values of [Inner] are flattened into [Middle]")],
        )],
    );
    let inner = record(
        "Inner",
        vec![],
        vec![
            field("extra", plain("Extra"), vec![tx("nesting"), doc(" [Extra] is flattened into [Middle]")]),
            field("value", plain("usize"), vec![doc(" `value` is defined below `extra`, but shown above")]),
        ],
    );
    let extra = record("Extra", vec![tx("default")], vec![field("name", plain("String"), vec![])]);
    let vals = values(&[("Extra::default().name", "\"ferris\"")]);
    let text = render_with(vec![outer, middle, inner, extra], "Outer", &vals);
    let table = parse(&text);
    assert_eq!(table["flag"].as_bool(), Some(false));
    assert_eq!(table["middle"]["value"].as_integer(), Some(0));
    assert_eq!(table["middle"]["extra"]["name"].as_str(), Some("ferris"));
    assert_eq!(
        text,
        "# Some toggle\nflag = false\n\n[middle]\n# Values of [Inner] are flattened into [Middle]\n# `value` is defined below `extra`, but shown above\nvalue = 0\n\n# [Extra] is flattened into [Middle]\n[middle.extra]\nname = \"ferris\"\n\n"
    );
}

#[test]
fn require() {
    let config = record(
        "Config",
        vec![],
        vec![
            field(
                "a",
                generic("Option", vec![plain("usize")]),
                vec![doc(" Config.a is an optional number"), tx("require")],
            ),
            field(
                "b",
                generic("Option", vec![plain("String")]),
                vec![doc(" Config.b is an optional string"), tx("require")],
            ),
            field(
                "c",
                generic("Option", vec![plain("String")]),
                vec![tx("require"), tx("default = \"third\"")],
            ),
        ],
    );
    assert_eq!(
        render(vec![config], "Config"),
        "# Config.a is an optional number\na = 0\n\n# Config.b is an optional string\nb = \"\"\n\nc = \"third\"\n\n"
    );
}

#[test]
fn skip() {
    let config = record(
        "Config",
        vec![],
        vec![
            field("a", plain("usize"), vec![doc(" Config.a is a number")]),
            field("b", plain("usize"), vec![tx("skip")]),
            field("c", plain("usize"), vec![serde("skip")]),
            field("d", plain("usize"), vec![serde("skip_deserializing")]),
        ],
    );
    assert_eq!(render(vec![config], "Config"), "# Config.a is a number\na = 0\n\n");
}

#[test]
fn is_enum() {
    let config = record(
        "Config",
        vec![],
        vec![
            field("ab", plain("AB"), vec![doc(" Config.ab is an enum"), tx("enum, default")]),
            field(
                "ab2",
                plain("AB"),
                vec![doc(" Config.ab2 is an enum too"), tx("is_enum"), serde("default")],
            ),
            field(
                "ab3",
                plain("AB"),
                vec![doc(" Config.ab3 is an enum as well"), tx("is_enum"), serde("default = \"b\"")],
            ),
        ],
    );
    let vals = values(&[("AB::default()", "A"), ("b()", "B")]);
    assert_eq!(
        render_with(vec![config], "Config", &vals),
        "# Config.ab is an enum\nab = \"A\"\n\n# Config.ab2 is an enum too\nab2 = \"A\"\n\n# Config.ab3 is an enum as well\nab3 = \"B\"\n\n"
    );
}

fn item() -> RecordDecl {
    record("Item", vec![], vec![field("_value", plain("String"), vec![])])
}

#[test]
fn flatten() {
    let wrapper = record(
        "ItemWrapper",
        vec![],
        vec![field("_item", plain("Item"), vec![tx("flatten, nesting")])],
    );
    assert_eq!(render(vec![wrapper, item()], "ItemWrapper"), render(vec![item()], "Item"));
}

#[test]
fn flatten_order() {
    let outer = record(
        "Outer",
        vec![],
        vec![
            field("_nested", plain("Item"), vec![tx("nesting")]),
            field("_flattened", plain("Item"), vec![tx("flatten, nesting")]),
        ],
    );
    assert_eq!(render(vec![outer, item()], "Outer"), "_value = \"\"\n\n[_nested]\n_value = \"\"\n\n");
}

#[test]
fn multi_attr_escaping() {
    let wrapper = record(
        "ConfigWrapper",
        vec![],
        vec![
            field(
                "vec",
                generic("Option", vec![generic("Vec", vec![plain("String")])]),
                vec![tx("default = [\"hello\", \"{nice :)\\\"\"], require")],
            ),
            field(
                "list",
                generic("Option", vec![TypeDesc::Other]),
                vec![tx("require, default = [\"\\\"\\\\\\n}])\", \"super (fancy\\\\! :-) )\"]")],
            ),
        ],
    );
    assert_eq!(
        render(vec![wrapper], "ConfigWrapper"),
        "vec = [\"hello\", \"{nice :)\\\"\"]\n\nlist = [\"\\\"\\\\\\n}])\", \"super (fancy\\\\! :-) )\"]\n\n"
    );
}

#[test]
fn r_sharp_field() {
    let config = record(
        "Config",
        vec![],
        vec![field("r#type", plain("usize"), vec![doc(" Config.type is a number")])],
    );
    assert_eq!(render(vec![config], "Config"), "# Config.type is a number\ntype = 0\n\n");
}

#[test]
fn non_nesting_field_should_be_first() {
    let foo = record("Foo", vec![], vec![field("a", plain("String"), vec![])]);
    let bar = record(
        "Bar",
        vec![],
        vec![
            field("foo", plain("Foo"), vec![tx("nesting")]),
            field("b", plain("String"), vec![]),
        ],
    );
    assert_eq!(render(vec![foo, bar], "Bar"), "b = \"\"\n\n[foo]\na = \"\"\n\n");
}

#[test]
fn rename() {
    let config = record(
        "Config",
        vec![],
        vec![field("b", plain("usize"), vec![serde("rename = \"bb\"")])],
    );
    assert_eq!(render(vec![config], "Config"), "bb = 0\n\n");
}

#[test]
fn rename_all() {
    let config = record(
        "Config",
        vec![serde("rename_all = \"kebab-case\"")],
        vec![field("a_a", plain("usize"), vec![])],
    );
    assert_eq!(render(vec![config], "Config"), "a-a = 0\n\n");
}

#[test]
fn hashset_and_struct() {
    let foo = record("Foo", vec![], vec![field("a", plain("String"), vec![])]);
    let bar = record(
        "Bar",
        vec![],
        vec![
            field("default", plain("Foo"), vec![doc(" Default instances doc"), tx("nesting")]),
            field(
                "instance",
                generic("HashMap", vec![plain("String"), plain("Foo")]),
                vec![doc(" Instances doc"), tx("nesting")],
            ),
        ],
    );
    assert_eq!(
        render(vec![foo, bar], "Bar"),
        "# Default instances doc\n[default]\na = \"\"\n\n# Instances doc\n[instance.example]\na = \"\"\n\n"
    );
}
