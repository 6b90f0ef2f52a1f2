//! Renderer tests: the diagram block format, access markers, dunder
//! suppression, parent escaping, order independence and whole diagrams.
use touml::members::{Accessible, Field, Method};
use touml::mermaid::{make_class_diagram, MermaidAdapter};
use touml::python::PyClassInfo;
use touml::sets::{FieldSet, MethodSet, StringSet};

fn field(n: &str, t: Option<&str>, d: Option<&str>) -> Field {
    Field { name: n.to_string(), dtype: t.map(|s| s.to_string()), default: d.map(|s| s.to_string()) }
}

fn string_set(names: &[&str]) -> StringSet {
    let mut s = StringSet::new();
    for n in names {
        s.insert(n.to_string());
    }
    s
}

fn field_set(fields: Vec<Field>) -> FieldSet {
    let mut s = FieldSet::new();
    for f in fields {
        s.insert(f);
    }
    s
}

fn method_set(methods: Vec<Method>) -> MethodSet {
    let mut s = MethodSet::new();
    for m in methods {
        s.insert(m);
    }
    s
}

#[test]
fn test_mermaid_display() {
    let cls = PyClassInfo {
        name: "TestClass".to_string(),
        parents: string_set(&["ParentTestClass", "AnotherTestClass"]),
        fields: field_set(vec![field("id", Some("int"), None)]),
        methods: method_set(vec![]),
    };
    assert_eq!(
        format!("{}", cls.to_mermaid().print("\n")),
        [
            "    class TestClass {",
            "        + id int",
            "    }",
            "",
            "    AnotherTestClass <|-- TestClass",
            "    ParentTestClass <|-- TestClass",
            "",
        ]
        .join("\n")
    )
}

#[test]
fn dunder_members_never_render_and_private_gets_minus() {
    let init = Method { name: "__init__".to_string(), args: vec![], returns: None };
    let cls = PyClassInfo {
        name: "C".to_string(),
        parents: string_set(&[]),
        fields: field_set(vec![
            field("__str__", None, None),
            field("_private", None, None),
            field("open", None, None),
        ]),
        methods: method_set(vec![init]),
    };
    let text = cls.to_mermaid().print("\n");
    assert!(!text.contains("__init__"));
    assert!(!text.contains("__str__"));
    assert!(text.contains("        - _private"));
    assert!(text.contains("        + open"));
}

#[test]
fn dotted_parent_is_backtick_escaped() {
    let cls = PyClassInfo {
        name: "C".to_string(),
        parents: string_set(&["abc.Base", "Plain"]),
        fields: field_set(vec![]),
        methods: method_set(vec![]),
    };
    let text = cls.to_mermaid().print("\n");
    assert!(text.contains("    `abc.Base` <|-- C"));
    assert!(text.contains("    Plain <|-- C"));
}

#[test]
fn field_with_type_hides_default_and_bare_default_shows() {
    let cls = PyClassInfo {
        name: "C".to_string(),
        parents: string_set(&[]),
        fields: field_set(vec![
            field("a", Some("int"), Some("3")),
            field("b", None, Some("7")),
            field("c", None, None),
        ]),
        methods: method_set(vec![]),
    };
    let text = cls.to_mermaid().print("\n");
    assert!(text.contains("        + a int\n"));
    assert!(!text.contains("a int = 3"));
    assert!(text.contains("        + b = 7\n"));
    assert!(text.contains("        + c\n"));
}

#[test]
fn method_line_lists_args_and_return_type() {
    let m = Method {
        name: "greet".to_string(),
        args: vec![field("self", None, None), field("name", Some("str"), None)],
        returns: Some("str".to_string()),
    };
    let cls = PyClassInfo {
        name: "C".to_string(),
        parents: string_set(&[]),
        fields: field_set(vec![]),
        methods: method_set(vec![m]),
    };
    let text = cls.to_mermaid().print("\n");
    assert!(text.contains("        + greet(self, str name) str\n"));
}

/// Rendering twice, and from records filled in any order, is
/// byte-identical: the canonical sort decides everything.
#[test]
fn rendering_is_order_independent_and_deterministic() {
    let one = PyClassInfo {
        name: "C".to_string(),
        parents: string_set(&["B", "A"]),
        fields: field_set(vec![field("y", None, None), field("x", Some("int"), None)]),
        methods: method_set(vec![]),
    };
    let two = PyClassInfo {
        name: "C".to_string(),
        parents: string_set(&["A", "B"]),
        fields: field_set(vec![field("x", Some("int"), None), field("y", None, None)]),
        methods: method_set(vec![]),
    };
    let left = one.to_mermaid().print("\n");
    let right = two.to_mermaid().print("\n");
    assert_eq!(left, right);
    let again = PyClassInfo {
        name: "C".to_string(),
        parents: string_set(&["B", "A"]),
        fields: field_set(vec![field("y", None, None), field("x", Some("int"), None)]),
        methods: method_set(vec![]),
    };
    assert_eq!(again.to_mermaid().print("\n"), left);
}

#[test]
fn duplicate_insertions_collapse_but_distinct_tuples_stay() {
    let mut s = FieldSet::new();
    s.insert(field("x", Some("int"), Some("1")));
    s.insert(field("x", Some("int"), Some("1")));
    assert_eq!(s.len(), 1);
    s.insert(field("x", Some("int"), Some("2")));
    assert_eq!(s.len(), 2);
}

#[test]
fn accessibility_follows_leading_underscore() {
    assert!(field("open", None, None).is_public());
    assert!(!field("_hidden", None, None).is_public());
    let m = Method { name: "_quiet".to_string(), args: vec![], returns: None };
    assert!(!m.is_public());
}

#[test]
fn class_diagram_joins_header_and_blocks() {
    let a = PyClassInfo {
        name: "A".to_string(),
        parents: string_set(&[]),
        fields: field_set(vec![]),
        methods: method_set(vec![]),
    };
    let b = PyClassInfo {
        name: "B".to_string(),
        parents: string_set(&[]),
        fields: field_set(vec![]),
        methods: method_set(vec![]),
    };
    let text = make_class_diagram(vec![a, b], "\n");
    assert!(text.starts_with("classDiagram\n"));
    assert!(text.contains("    class A {\n    }\n"));
    assert!(text.contains("    class B {\n    }\n"));
}

#[test]
fn mermaid_test_mermaid_display() {
    let cls = PyClassInfo {
        name: "TestClass".to_string(),
        parents: string_set(&["ParentTestClass", "AnotherTestClass"]),
        fields: field_set(vec![field("id", Some("int"), None)]),
        methods: method_set(vec![]),
    };
    assert_eq!(
        format!("{}", cls.to_mermaid().print("\n")),
        [
            "    class TestClass {",
            "        + id int",
            "    }",
            "",
            "    AnotherTestClass <|-- TestClass",
            "    ParentTestClass <|-- TestClass",
            "",
        ]
        .join("\n")
    )
}

#[test]
fn bare_underscore_runs_count_as_dunders() {
    let cls = PyClassInfo {
        name: "C".to_string(),
        parents: string_set(&[]),
        fields: field_set(vec![
            field("__", None, None),
            field("___", None, None),
            field("_x_", None, None),
        ]),
        methods: method_set(vec![]),
    };
    let text = cls.to_mermaid().print("\n");
    assert!(!text.contains("__"));
    assert!(text.contains("        - _x_"));
}
