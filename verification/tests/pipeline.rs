//! End-to-end and printer tests: literal reconstruction, annotation round
//! trips, class extraction, exclusion filters, and failure isolation.
use touml::ast::{AnnAssign, Assign, Constant, DictEntry, Expr, ExprKind, FunctionDef, Param, Stmt};
use touml::errors::{CliError, ParseError};
use touml::printer::PyExpr;
use touml::members::Field;
use touml::python::PyClassInfo;
use touml::python_to_mermaid;

fn name(s: &str) -> Expr {
    Expr::Name(s.to_string())
}

fn int_lit(s: &str) -> Expr {
    Expr::Constant(Constant::Int(s.to_string()))
}

fn str_lit(s: &str) -> Expr {
    Expr::Constant(Constant::Str(s.to_string()))
}

fn class_stmt(n: &str, bases: Vec<Expr>, body: Vec<Stmt>) -> Stmt {
    Stmt::ClassDef(touml::ast::ClassDef { name: n.to_string(), bases, body })
}

fn no_excludes() -> Vec<String> {
    Vec::new()
}

fn excludes(ps: &[&str]) -> Vec<String> {
    ps.iter().map(|s| s.to_string()).collect()
}

#[test]
fn print_value_reconstructs_supported_constants() {
    assert_eq!(int_lit("42").print_value(), Some("42".to_string()));
    assert_eq!(str_lit("hello").print_value(), Some("'hello'".to_string()));
    assert_eq!(
        Expr::Constant(Constant::Bool(true)).print_value(),
        Some("True".to_string())
    );
    assert_eq!(
        Expr::Constant(Constant::Bool(false)).print_value(),
        Some("False".to_string())
    );
    assert_eq!(
        Expr::Constant(Constant::NoneConst).print_value(),
        Some("None".to_string())
    );
    assert_eq!(Expr::Constant(Constant::FloatConst).print_value(), None);
    assert_eq!(name("x").print_value(), None);
}

#[test]
fn print_value_single_tuple_has_trailing_comma() {
    let t = Expr::TupleLit(vec![int_lit("1")]);
    assert_eq!(t.print_value(), Some("(1,)".to_string()));
    let pair = Expr::TupleLit(vec![int_lit("1"), int_lit("2")]);
    assert_eq!(pair.print_value(), Some("(1, 2,)".to_string()));
}

#[test]
fn print_value_collections() {
    let l = Expr::ListLit(vec![int_lit("1"), int_lit("2")]);
    assert_eq!(l.print_value(), Some("[1, 2]".to_string()));
    let s = Expr::SetLit(vec![int_lit("1"), int_lit("2")]);
    assert_eq!(s.print_value(), Some("{1, 2}".to_string()));
}

#[test]
fn print_value_dict_tuple_values_gain_trailing_comma() {
    let d = Expr::DictLit(vec![
        DictEntry {
            key: Some(str_lit("a")),
            value: Expr::TupleLit(vec![int_lit("1"), int_lit("2")]),
        },
        DictEntry { key: Some(str_lit("b")), value: Expr::TupleLit(vec![int_lit("2")]) },
    ]);
    assert_eq!(d.print_value(), Some("{'a': (1, 2,), 'b': (2,)}".to_string()));
}

#[test]
fn print_value_dict_unprintable_value_falls_back_to_none() {
    let d = Expr::DictLit(vec![DictEntry { key: Some(str_lit("k")), value: name("x") }]);
    assert_eq!(d.print_value(), Some("{'k': None}".to_string()));
}

#[test]
fn print_value_dict_unprintable_key_drops_pair() {
    let d = Expr::DictLit(vec![
        DictEntry { key: Some(name("k")), value: int_lit("1") },
        DictEntry { key: None, value: int_lit("2") },
        DictEntry { key: Some(str_lit("b")), value: int_lit("3") },
    ]);
    assert_eq!(d.print_value(), Some("{'b': 3}".to_string()));
}

#[test]
fn print_annotation_nested_subscript_round_trip() {
    let ann = Expr::Subscript(
        Box::new(name("Dict")),
        Box::new(Expr::TupleLit(vec![
            name("str"),
            Expr::Subscript(Box::new(name("List")), Box::new(name("int"))),
        ])),
    );
    assert_eq!(ann.print_annotation().unwrap(), "Dict[str, List[int]]".to_string());
}

#[test]
fn print_annotation_rejects_unsupported_shapes() {
    assert_eq!(
        Expr::Call.print_annotation(),
        Err(ParseError::UnexpectedExprType(ExprKind::CallKind))
    );
    assert_eq!(
        str_lit("s").print_annotation(),
        Err(ParseError::UnexpectedExprType(ExprKind::ConstantKind))
    );
}

/// `class C(A, B): x: int = 1`
#[test]
fn extracts_class_with_parents_field_and_no_methods() {
    let cls = touml::ast::ClassDef {
        name: "C".to_string(),
        bases: vec![name("A"), name("B")],
        body: vec![Stmt::AnnAssign(AnnAssign {
            target: name("x"),
            annotation: name("int"),
            value: Some(int_lit("1")),
        })],
    };
    let info = PyClassInfo::from_class_def(&cls).unwrap();
    assert_eq!(info.name, "C");
    assert_eq!(info.parents.items, vec!["A".to_string(), "B".to_string()]);
    assert_eq!(
        info.fields.items,
        vec![Field {
            name: "x".to_string(),
            dtype: Some("int".to_string()),
            default: Some("1".to_string()),
        }]
    );
    assert_eq!(info.methods.len(), 0);
}

fn self_attr(attr: &str) -> Expr {
    Expr::Attribute(Box::new(name("self")), attr.to_string())
}

/// `class M: def __init__(self, name, id) -> None: self.id = id; self.name = name`
#[test]
fn constructor_fields_form_a_set_independent_of_assignment_order() {
    let init = FunctionDef {
        name: "__init__".to_string(),
        posonlyargs: vec![],
        kwonlyargs: vec![],
        args: vec![
            Param { name: "self".to_string(), annotation: None, default: None },
            Param { name: "name".to_string(), annotation: None, default: None },
            Param { name: "id".to_string(), annotation: None, default: None },
        ],
        returns: Some(Expr::Constant(Constant::NoneConst)),
        body: vec![
            Stmt::Assign(Assign { targets: vec![self_attr("id")], value: name("id") }),
            Stmt::Assign(Assign { targets: vec![self_attr("name")], value: name("name") }),
        ],
    };
    let cls = touml::ast::ClassDef {
        name: "M".to_string(),
        bases: vec![],
        body: vec![Stmt::FunctionDef(init)],
    };
    let info = PyClassInfo::from_class_def(&cls).unwrap();
    assert_eq!(
        info.fields.items,
        vec![
            Field { name: "id".to_string(), dtype: None, default: None },
            Field { name: "name".to_string(), dtype: None, default: None },
        ]
    );
}

#[test]
fn duplicate_base_names_collapse_to_one_parent() {
    let cls = touml::ast::ClassDef {
        name: "C".to_string(),
        bases: vec![name("A"), name("A")],
        body: vec![],
    };
    let info = PyClassInfo::from_class_def(&cls).unwrap();
    assert_eq!(info.parents.items, vec!["A".to_string()]);
}

#[test]
fn call_expression_base_fails_only_that_class() {
    let module = vec![
        class_stmt("Bad", vec![Expr::Call], vec![]),
        class_stmt("Good", vec![], vec![]),
        Stmt::Other,
    ];
    let results = PyClassInfo::from_module(&module);
    assert_eq!(results.len(), 2);
    assert_eq!(results[0], Err(ParseError::ExprParse(ExprKind::CallKind)));
    assert!(results[1].is_ok());

    let text = python_to_mermaid(&module, &no_excludes(), &no_excludes(), "\n").unwrap();
    assert!(text.contains("    class Good {"));
    assert!(!text.contains("Bad"));
}

#[test]
fn exclusion_by_own_name_uses_glob() {
    let module = vec![
        class_stmt("SecretThing", vec![], vec![]),
        class_stmt("Open", vec![], vec![]),
    ];
    let text =
        python_to_mermaid(&module, &excludes(&["*Secret*"]), &no_excludes(), "\n").unwrap();
    assert!(!text.contains("SecretThing"));
    assert!(text.contains("    class Open {"));
}

#[test]
fn exclusion_by_ancestor_drops_the_whole_class() {
    let module = vec![
        class_stmt("Child", vec![name("BaseThing")], vec![]),
        class_stmt("Free", vec![], vec![]),
    ];
    let text = python_to_mermaid(&module, &no_excludes(), &excludes(&["Base*"]), "\n").unwrap();
    assert!(!text.contains("Child"));
    assert!(text.contains("    class Free {"));
}

#[test]
fn empty_module_yields_nothing() {
    let module = vec![Stmt::Other];
    assert_eq!(python_to_mermaid(&module, &no_excludes(), &no_excludes(), "\n"), None);
}

#[test]
fn blocks_join_with_a_blank_line() {
    let module = vec![class_stmt("A", vec![], vec![]), class_stmt("B", vec![], vec![])];
    let text = python_to_mermaid(&module, &no_excludes(), &no_excludes(), "\n").unwrap();
    assert_eq!(text, "    class A {\n    }\n\n\n    class B {\n    }\n");
}

#[test]
fn plain_assignment_with_bad_target_fails_class() {
    let cls = touml::ast::ClassDef {
        name: "C".to_string(),
        bases: vec![],
        body: vec![Stmt::Assign(Assign {
            targets: vec![Expr::TupleLit(vec![name("a"), name("b")])],
            value: int_lit("1"),
        })],
    };
    assert_eq!(PyClassInfo::from_class_def(&cls), Err(ParseError::StmtAssignParse));
}

#[test]
fn annotated_assignment_with_attribute_target_fails_class() {
    let cls = touml::ast::ClassDef {
        name: "C".to_string(),
        bases: vec![],
        body: vec![Stmt::AnnAssign(AnnAssign {
            target: self_attr("x"),
            annotation: name("int"),
            value: None,
        })],
    };
    assert_eq!(
        PyClassInfo::from_class_def(&cls),
        Err(ParseError::ExprParse(ExprKind::AttributeKind))
    );
}

#[test]
fn unprintable_annotation_fails_class() {
    let cls = touml::ast::ClassDef {
        name: "C".to_string(),
        bases: vec![],
        body: vec![Stmt::AnnAssign(AnnAssign {
            target: name("x"),
            annotation: Expr::Lambda,
            value: None,
        })],
    };
    assert_eq!(
        PyClassInfo::from_class_def(&cls),
        Err(ParseError::UnexpectedExprType(ExprKind::LambdaKind))
    );
}

#[test]
fn cli_error_has_a_message() {
    assert_eq!(CliError.message(), "diagram generation failed");
}
