//! Round-trip tests: a printed literal, fed back through the real Python
//! parser, comes back as the same value.
use rustpython_parser::{ast, Parse};
use touml::ast::{Constant, DictEntry, Expr};
use touml::printer::PyExpr;

fn convert_constant(c: &ast::Constant) -> Constant {
    match c {
        ast::Constant::None => Constant::NoneConst,
        ast::Constant::Bool(b) => Constant::Bool(*b),
        ast::Constant::Str(s) => Constant::Str(s.clone()),
        ast::Constant::Bytes(_) => Constant::BytesConst,
        ast::Constant::Int(i) => Constant::Int(i.to_string()),
        ast::Constant::Tuple(_) => Constant::TupleConst,
        ast::Constant::Float(_) => Constant::FloatConst,
        ast::Constant::Complex { .. } => Constant::ComplexConst,
        ast::Constant::Ellipsis => Constant::EllipsisConst,
    }
}

fn convert_expr(e: &ast::Expr) -> Expr {
    match e {
        ast::Expr::Name(n) => Expr::Name(n.id.to_string()),
        ast::Expr::Constant(c) => Expr::Constant(convert_constant(&c.value)),
        ast::Expr::Set(s) => Expr::SetLit(s.elts.iter().map(convert_expr).collect()),
        ast::Expr::Tuple(t) => Expr::TupleLit(t.elts.iter().map(convert_expr).collect()),
        ast::Expr::List(l) => Expr::ListLit(l.elts.iter().map(convert_expr).collect()),
        ast::Expr::Dict(d) => Expr::DictLit(
            d.keys
                .iter()
                .zip(d.values.iter())
                .map(|(k, v)| DictEntry {
                    key: k.as_ref().map(convert_expr),
                    value: convert_expr(v),
                })
                .collect(),
        ),
        _ => Expr::Other,
    }
}

/// Parses one Python expression into the library's model.
fn reparse(text: &str) -> Expr {
    let parsed = ast::Expr::parse(text, "literal").expect("printed literal should parse back");
    convert_expr(&parsed)
}

fn int_lit(s: &str) -> Expr {
    Expr::Constant(Constant::Int(s.to_string()))
}

#[test]
fn printed_constants_reparse_to_equal_values() {
    let cases = vec![
        int_lit("42"),
        int_lit("0"),
        Expr::Constant(Constant::Str("hello".to_string())),
        Expr::Constant(Constant::Bool(true)),
        Expr::Constant(Constant::Bool(false)),
        Expr::Constant(Constant::NoneConst),
    ];
    for c in cases {
        let text = c.print_value().expect("supported constant must print");
        assert_eq!(reparse(&text), c);
    }
}

#[test]
fn printed_containers_reparse_to_equal_values() {
    let cases = vec![
        Expr::ListLit(vec![int_lit("1"), int_lit("2"), int_lit("3")]),
        Expr::SetLit(vec![int_lit("7")]),
        Expr::TupleLit(vec![int_lit("1")]),
        Expr::TupleLit(vec![int_lit("1"), int_lit("2")]),
        Expr::DictLit(vec![
            DictEntry {
                key: Some(Expr::Constant(Constant::Str("a".to_string()))),
                value: Expr::TupleLit(vec![int_lit("1"), int_lit("2")]),
            },
            DictEntry {
                key: Some(Expr::Constant(Constant::Str("b".to_string()))),
                value: Expr::TupleLit(vec![int_lit("2")]),
            },
        ]),
    ];
    for c in cases {
        let text = c.print_value().expect("supported literal must print");
        assert_eq!(reparse(&text), c);
    }
}
