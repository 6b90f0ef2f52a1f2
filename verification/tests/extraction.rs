//! The extraction tests: methods, assignments, annotations and
//! constructor-scraped fields, each on the syntax tree of a small Python
//! snippet.
use touml::ast::{AnnAssign, Assign, Constant, DictEntry, Expr, FunctionDef, Param, Stmt};
use touml::members::{Field, Method};
use touml::python::{field_from_ann_assign, field_from_assign, method_from_def, PyClassInfo};

fn name(s: &str) -> Expr {
    Expr::Name(s.to_string())
}

fn int_lit(s: &str) -> Expr {
    Expr::Constant(Constant::Int(s.to_string()))
}

fn str_lit(s: &str) -> Expr {
    Expr::Constant(Constant::Str(s.to_string()))
}

fn param(n: &str, ann: Option<Expr>, default: Option<Expr>) -> Param {
    Param { name: n.to_string(), annotation: ann, default }
}

fn no_params() -> Vec<Param> {
    Vec::new()
}

/// `def my_func(name: str): return f'Hello {name}!'`
#[test]
fn test_sync_function_parse() {
    let f = FunctionDef {
        name: "my_func".to_string(),
        posonlyargs: no_params(),
        kwonlyargs: no_params(),
        args: vec![param("name", Some(name("str")), None)],
        returns: None,
        body: vec![Stmt::Other],
    };
    let method = method_from_def(&f);
    assert_eq!(
        method,
        Method {
            name: "my_func".to_string(),
            args: vec![Field {
                name: "name".to_string(),
                dtype: Some("str".to_string()),
                default: None,
            }],
            returns: None,
        }
    );
}

/// `async def _my_other_func(name: str, age: int = 18) -> str: ...`
#[test]
fn test_async_function_parse() {
    let f = FunctionDef {
        name: "_my_other_func".to_string(),
        posonlyargs: no_params(),
        kwonlyargs: no_params(),
        args: vec![
            param("name", Some(name("str")), None),
            param("age", Some(name("int")), Some(int_lit("18"))),
        ],
        returns: Some(name("str")),
        body: vec![Stmt::Other],
    };
    let method = method_from_def(&f);
    assert_eq!(
        method,
        Method {
            name: "_my_other_func".to_string(),
            args: vec![
                Field {
                    name: "name".to_string(),
                    dtype: Some("str".to_string()),
                    default: None,
                },
                Field {
                    name: "age".to_string(),
                    dtype: Some("int".to_string()),
                    default: Some("18".to_string()),
                },
            ],
            returns: Some("str".to_string()),
        }
    );
}

/// `x = 42`
#[test]
fn test_parse_assignment() {
    let a = Assign { targets: vec![name("x")], value: int_lit("42") };
    let assignment = field_from_assign(&a).unwrap();
    assert_eq!(
        assignment,
        Field {
            name: "x".to_string(),
            dtype: Some("int".to_string()),
            default: Some("42".to_string()),
        }
    );
}

/// `x: list[int] = [1, 2, 3]`
#[test]
fn test_parse_annotated_list_assignment() {
    let a = AnnAssign {
        target: name("x"),
        annotation: Expr::Subscript(Box::new(name("list")), Box::new(name("int"))),
        value: Some(Expr::ListLit(vec![int_lit("1"), int_lit("2"), int_lit("3")])),
    };
    let assignment = field_from_ann_assign(&a).unwrap();
    assert_eq!(
        assignment,
        Field {
            name: "x".to_string(),
            dtype: Some("list[int]".to_string()),
            default: Some("[1, 2, 3]".to_string()),
        }
    );
}

fn sample_dict() -> Expr {
    Expr::DictLit(vec![
        DictEntry {
            key: Some(str_lit("a")),
            value: Expr::TupleLit(vec![int_lit("1"), int_lit("2")]),
        },
        DictEntry { key: Some(str_lit("b")), value: Expr::TupleLit(vec![int_lit("2")]) },
        DictEntry {
            key: Some(str_lit("c")),
            value: Expr::TupleLit(vec![int_lit("3"), int_lit("3"), int_lit("3")]),
        },
    ])
}

/// `x: dict[str, tuple[int, ...]] = {'a': (1, 2), 'b': (2,), 'c': (3, 3, 3,)}`
#[test]
fn test_parse_annotated_dict_assignment() {
    let a = AnnAssign {
        target: name("x"),
        annotation: Expr::Subscript(
            Box::new(name("dict")),
            Box::new(Expr::TupleLit(vec![
                name("str"),
                Expr::Subscript(
                    Box::new(name("tuple")),
                    Box::new(Expr::TupleLit(vec![
                        name("int"),
                        Expr::Constant(Constant::EllipsisConst),
                    ])),
                ),
            ])),
        ),
        value: Some(sample_dict()),
    };
    let assignment = field_from_ann_assign(&a).unwrap();
    assert_eq!(
        assignment,
        Field {
            name: "x".to_string(),
            dtype: Some("dict[str, tuple[int, ...]]".to_string()),
            default: Some("{'a': (1, 2,), 'b': (2,), 'c': (3, 3, 3,)}".to_string()),
        }
    );
}

/// `x: dict | int | None = {'a': (1, 2), 'b': (2,), 'c': (3, 3, 3,)}`
#[test]
fn test_parse_annotation_union() {
    let a = AnnAssign {
        target: name("x"),
        annotation: Expr::BinOp(
            Box::new(Expr::BinOp(Box::new(name("dict")), Box::new(name("int")))),
            Box::new(Expr::Constant(Constant::NoneConst)),
        ),
        value: Some(sample_dict()),
    };
    let assignment = field_from_ann_assign(&a).unwrap();
    assert_eq!(
        assignment,
        Field {
            name: "x".to_string(),
            dtype: Some("dict | int | None".to_string()),
            default: Some("{'a': (1, 2,), 'b': (2,), 'c': (3, 3, 3,)}".to_string()),
        }
    );
}

/// `x: Union[dict, int, None] = {'a': (1, 2), 'b': (2,), 'c': (3, 3, 3,)}`
#[test]
fn test_parse_annotation_typing_union() {
    let a = AnnAssign {
        target: name("x"),
        annotation: Expr::Subscript(
            Box::new(name("Union")),
            Box::new(Expr::TupleLit(vec![
                name("dict"),
                name("int"),
                Expr::Constant(Constant::NoneConst),
            ])),
        ),
        value: Some(sample_dict()),
    };
    let assignment = field_from_ann_assign(&a).unwrap();
    assert_eq!(
        assignment,
        Field {
            name: "x".to_string(),
            dtype: Some("Union[dict, int, None]".to_string()),
            default: Some("{'a': (1, 2,), 'b': (2,), 'c': (3, 3, 3,)}".to_string()),
        }
    );
}

/// `x: t.Any = None`
#[test]
fn test_parse_annotation_attrs() {
    let a = AnnAssign {
        target: name("x"),
        annotation: Expr::Attribute(Box::new(name("t")), "Any".to_string()),
        value: Some(Expr::Constant(Constant::NoneConst)),
    };
    let assignment = field_from_ann_assign(&a).unwrap();
    assert_eq!(
        assignment,
        Field {
            name: "x".to_string(),
            dtype: Some("t.Any".to_string()),
            default: Some("None".to_string()),
        }
    );
}

fn self_attr(attr: &str) -> Expr {
    Expr::Attribute(Box::new(name("self")), attr.to_string())
}

/// `class MyClass:` with `def __init__(self, name, id) -> None:` assigning
/// `self.id = id` and `self.name = name`.
#[test]
fn test_parse_fields_from_init() {
    let init = FunctionDef {
        name: "__init__".to_string(),
        posonlyargs: no_params(),
        kwonlyargs: no_params(),
        args: vec![param("self", None, None), param("name", None, None), param("id", None, None)],
        returns: Some(Expr::Constant(Constant::NoneConst)),
        body: vec![
            Stmt::Assign(Assign { targets: vec![self_attr("id")], value: name("id") }),
            Stmt::Assign(Assign { targets: vec![self_attr("name")], value: name("name") }),
        ],
    };
    let result = PyClassInfo::get_fields_from_init(&init);
    assert_eq!(
        result,
        vec![
            Field { name: "id".to_string(), dtype: None, default: None },
            Field { name: "name".to_string(), dtype: None, default: None },
        ]
    );
}

/// `def __init__(self): self.x: int = 5` — a constructor-scraped field
/// carries no annotation and no default.
#[test]
fn annotated_self_attribute_contributes_a_bare_field() {
    let init = FunctionDef {
        name: "__init__".to_string(),
        posonlyargs: no_params(),
        kwonlyargs: no_params(),
        args: vec![param("self", None, None)],
        returns: None,
        body: vec![Stmt::AnnAssign(AnnAssign {
            target: self_attr("x"),
            annotation: name("int"),
            value: Some(int_lit("5")),
        })],
    };
    let result = PyClassInfo::get_fields_from_init(&init);
    assert_eq!(result, vec![Field { name: "x".to_string(), dtype: None, default: None }]);
}
