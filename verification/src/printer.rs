//! The expression printer: reconstructs a literal default value
//! (`print_value`) or a type annotation (`print_annotation`) from an
//! expression tree.  Both are pure and partial: an unsupported shape yields
//! "no value" for a literal, and a typed failure for an annotation.
use vstd::prelude::*;

use crate::ast::{kind_of, Constant, DictEntry, Expr};
use crate::errors::ParseError;

verus! {

/// `parts` joined with `sep` between consecutive entries.
pub open spec fn spec_join(parts: Seq<Seq<char>>, sep: Seq<char>) -> Seq<char>
    decreases parts.len(),
{
    if parts.len() == 0 {
        Seq::empty()
    } else if parts.len() == 1 {
        parts[0]
    } else {
        spec_join(parts.drop_last(), sep) + sep + parts.last()
    }
}

/// What `print_value` returns, as a mathematical function of the
/// expression.
pub open spec fn spec_print_value(e: Expr) -> Option<Seq<char>>
    decreases e,
{
    match e {
        Expr::Constant(c) => match c {
            Constant::Str(s) => Option::Some("'"@ + s@ + "'"@),
            Constant::Int(i) => Option::Some(i@),
            Constant::Bool(b) => Option::Some(if b {
                "True"@
            } else {
                "False"@
            }),
            Constant::NoneConst => Option::Some("None"@),
            _ => Option::None,
        },
        Expr::SetLit(elts) => Option::Some(
            "{"@ + spec_join(spec_value_parts(elts@), ", "@) + "}"@,
        ),
        Expr::TupleLit(elts) => Option::Some(
            "("@ + spec_join(spec_value_parts(elts@), ", "@) + ",)"@,
        ),
        Expr::ListLit(elts) => Option::Some(
            "["@ + spec_join(spec_value_parts(elts@), ", "@) + "]"@,
        ),
        Expr::DictLit(entries) => Option::Some(
            "{"@ + spec_join(spec_kv_parts(entries@), ", "@) + "}"@,
        ),
        _ => Option::None,
    }
}

/// The printed values of the elements that have one, in element order.
pub open spec fn spec_value_parts(elts: Seq<Expr>) -> Seq<Seq<char>>
    decreases elts,
{
    if elts.len() == 0 {
        Seq::empty()
    } else {
        spec_value_parts(elts.drop_last()) + match spec_print_value(elts.last()) {
            Option::Some(v) => seq![v],
            Option::None => Seq::empty(),
        }
    }
}

/// The printed `key: value` pairs of a dict literal, in entry order.  A
/// pair whose key has no printed value is dropped; a printable key whose
/// value has none falls back to the text `None`.
pub open spec fn spec_kv_parts(entries: Seq<DictEntry>) -> Seq<Seq<char>>
    decreases entries,
{
    if entries.len() == 0 {
        Seq::empty()
    } else {
        spec_kv_parts(entries.drop_last()) + match entries.last().key {
            Option::Some(k) => match spec_print_value(k) {
                Option::Some(ks) => seq![
                    ks + ": "@ + match spec_print_value(entries.last().value) {
                        Option::Some(vs) => vs,
                        Option::None => "None"@,
                    },
                ],
                Option::None => Seq::empty(),
            },
            Option::None => Seq::empty(),
        }
    }
}

/// What `print_annotation` returns, as a mathematical function of the
/// expression.
pub open spec fn spec_print_annotation(e: Expr) -> Result<Seq<char>, ParseError>
    decreases e,
{
    match e {
        Expr::Name(id) => Result::Ok(id@),
        Expr::Constant(c) => match c {
            Constant::EllipsisConst => Result::Ok("..."@),
            Constant::NoneConst => Result::Ok("None"@),
            _ => Result::Err(ParseError::UnexpectedExprType(kind_of(e))),
        },
        Expr::Subscript(v, sl) => match *v {
            Expr::Name(outer) => match *sl {
                Expr::Name(inner) => Result::Ok(outer@ + "["@ + inner@ + "]"@),
                Expr::TupleLit(elts) => match spec_ann_parts(elts@) {
                    Result::Ok(parts) => Result::Ok(
                        outer@ + "["@ + spec_join(parts, ", "@) + "]"@,
                    ),
                    Result::Err(err) => Result::Err(err),
                },
                _ => Result::Err(ParseError::UnexpectedExprType(kind_of(e))),
            },
            _ => Result::Err(ParseError::UnexpectedExprType(kind_of(e))),
        },
        Expr::BinOp(l, r) => match spec_print_annotation(*l) {
            Result::Ok(a) => match spec_print_annotation(*r) {
                Result::Ok(b) => Result::Ok(a + " | "@ + b),
                Result::Err(err) => Result::Err(err),
            },
            Result::Err(err) => Result::Err(err),
        },
        Expr::Attribute(v, attr) => match spec_print_annotation(*v) {
            Result::Ok(a) => Result::Ok(a + "."@ + attr@),
            Result::Err(err) => Result::Err(err),
        },
        _ => Result::Err(ParseError::UnexpectedExprType(kind_of(e))),
    }
}

/// The printed annotations of all elements, or the first failure.
pub open spec fn spec_ann_parts(elts: Seq<Expr>) -> Result<Seq<Seq<char>>, ParseError>
    decreases elts,
{
    if elts.len() == 0 {
        Result::Ok(Seq::empty())
    } else {
        match spec_print_annotation(elts[0]) {
            Result::Err(err) => Result::Err(err),
            Result::Ok(a) => match spec_ann_parts(elts.drop_first()) {
                Result::Err(err) => Result::Err(err),
                Result::Ok(rest) => Result::Ok(seq![a] + rest),
            },
        }
    }
}

/// An annotation result with its string replaced by the string's view.
pub open spec fn ann_view(r: Result<String, ParseError>) -> Result<Seq<char>, ParseError> {
    match r {
        Result::Ok(s) => Result::Ok(s@),
        Result::Err(e) => Result::Err(e),
    }
}

/// `parts` glued together with `sep`.
pub fn join_parts(parts: &Vec<String>, sep: &str) -> (r: String)
    ensures
        r@ == spec_join(parts.deep_view(), sep@),
{
    let ghost pv = parts.deep_view();
    let mut out = String::new();
    let mut i: usize = 0;
    proof {
        assert(pv.take(0) =~= Seq::<Seq<char>>::empty());
    }
    while i < parts.len()
        invariant
            i <= parts.len(),
            pv == parts.deep_view(),
            pv.len() == parts.len(),
            out@ == spec_join(pv.take(i as int), sep@),
        decreases parts.len() - i,
    {
        if i > 0 {
            out.append(sep);
        }
        out.append(parts[i].as_str());
        proof {
            assert(pv.take(i + 1).drop_last() =~= pv.take(i as int));
            assert(pv.take(i + 1).last() == pv[i as int]);
            assert(pv[i as int] == parts[i as int].deep_view());
        }
        i = i + 1;
    }
    proof {
        assert(pv.take(pv.len() as int) =~= pv);
    }
    out
}

/// The printed values of the printable elements.
fn collect_value_parts(elts: &Vec<Expr>) -> (r: Vec<String>)
    ensures
        r.deep_view() == spec_value_parts(elts@),
    decreases elts@,
{
    let mut parts: Vec<String> = Vec::new();
    let mut i: usize = 0;
    proof {
        assert(elts@.take(0) =~= Seq::<Expr>::empty());
        assert(parts.deep_view() =~= spec_value_parts(elts@.take(0)));
    }
    while i < elts.len()
        invariant
            i <= elts.len(),
            parts.deep_view() == spec_value_parts(elts@.take(i as int)),
        decreases elts.len() - i,
    {
        let ghost before = parts.deep_view();
        match elts[i].print_value() {
            Option::Some(s) => {
                let ghost sv = s@;
                parts.push(s);
                proof {
                    assert(parts.deep_view() =~= before.push(sv));
                }
            },
            Option::None => {},
        }
        proof {
            assert(elts@.take(i + 1).drop_last() =~= elts@.take(i as int));
            assert(elts@.take(i + 1).last() == elts@[i as int]);
            assert(parts.deep_view() =~= spec_value_parts(elts@.take(i + 1)));
        }
        i = i + 1;
    }
    proof {
        assert(elts@.take(elts@.len() as int) =~= elts@);
    }
    parts
}

/// The printed `key: value` pairs of the printable entries.
fn collect_kv_parts(entries: &Vec<DictEntry>) -> (r: Vec<String>)
    ensures
        r.deep_view() == spec_kv_parts(entries@),
    decreases entries@,
{
    let mut parts: Vec<String> = Vec::new();
    let mut i: usize = 0;
    proof {
        assert(entries@.take(0) =~= Seq::<DictEntry>::empty());
        assert(parts.deep_view() =~= spec_kv_parts(entries@.take(0)));
    }
    while i < entries.len()
        invariant
            i <= entries.len(),
            parts.deep_view() == spec_kv_parts(entries@.take(i as int)),
        decreases entries.len() - i,
    {
        let ghost before = parts.deep_view();
        match &entries[i].key {
            Option::Some(k) => {
                match k.print_value() {
                    Option::Some(ks) => {
                        let mut pair = ks;
                        pair.append(": ");
                        match entries[i].value.print_value() {
                            Option::Some(vs) => {
                                pair.append(vs.as_str());
                            },
                            Option::None => {
                                pair.append("None");
                            },
                        }
                        let ghost pv = pair@;
                        parts.push(pair);
                        proof {
                            assert(parts.deep_view() =~= before.push(pv));
                        }
                    },
                    Option::None => {},
                }
            },
            Option::None => {},
        }
        proof {
            assert(entries@.take(i + 1).drop_last() =~= entries@.take(i as int));
            assert(entries@.take(i + 1).last() == entries@[i as int]);
            assert(parts.deep_view() =~= spec_kv_parts(entries@.take(i + 1)));
        }
        i = i + 1;
    }
    proof {
        assert(entries@.take(entries@.len() as int) =~= entries@);
    }
    parts
}

/// The printed annotations of all elements, or the first failure.
fn collect_ann_parts(elts: &Vec<Expr>) -> (r: Result<Vec<String>, ParseError>)
    ensures
        match r {
            Result::Ok(parts) => spec_ann_parts(elts@) == Result::Ok::<
                Seq<Seq<char>>,
                ParseError,
            >(parts.deep_view()),
            Result::Err(e) => spec_ann_parts(elts@) == Result::Err::<
                Seq<Seq<char>>,
                ParseError,
            >(e),
        },
    decreases elts@,
{
    let mut parts: Vec<String> = Vec::new();
    let mut i: usize = 0;
    proof {
        assert(elts@.skip(0) =~= elts@);
        assert(parts.deep_view() + Seq::<Seq<char>>::empty() =~= parts.deep_view());
    }
    while i < elts.len()
        invariant
            i <= elts.len(),
            spec_ann_parts(elts@) == match spec_ann_parts(elts@.skip(i as int)) {
                Result::Ok(rest) => Result::Ok::<Seq<Seq<char>>, ParseError>(
                    parts.deep_view() + rest,
                ),
                Result::Err(e) => Result::Err::<Seq<Seq<char>>, ParseError>(e),
            },
        decreases elts.len() - i,
    {
        let ghost before = parts.deep_view();
        proof {
            assert(elts@.skip(i as int)[0] == elts@[i as int]);
            assert(elts@.skip(i as int).drop_first() =~= elts@.skip(i + 1));
        }
        match elts[i].print_annotation() {
            Result::Ok(a) => {
                let ghost av = a@;
                parts.push(a);
                proof {
                    assert(parts.deep_view() =~= before.push(av));
                    if let Result::Ok(rest) = spec_ann_parts(elts@.skip(i + 1)) {
                        assert(before + (seq![av] + rest) =~= parts.deep_view() + rest);
                    }
                }
            },
            Result::Err(e) => {
                return Result::Err(e);
            },
        }
        i = i + 1;
    }
    proof {
        assert(elts@.skip(elts@.len() as int).len() == 0);
        assert(parts.deep_view() + Seq::<Seq<char>>::empty() =~= parts.deep_view());
    }
    Result::Ok(parts)
}

/// The two printer operations: every expression either reconstructs a
/// literal value, or a type annotation, or says why it cannot.
pub trait PyExpr {
    /// What printing this expression as a literal yields.
    spec fn value_spec(&self) -> Option<Seq<char>>;

    /// What printing this expression as an annotation yields.
    spec fn annotation_spec(&self) -> Result<Seq<char>, ParseError>;

    /// Reconstructs the literal this expression denotes, if it has a
    /// supported shape; any other shape is "no value", never an error.
    fn print_value(&self) -> (r: Option<String>)
        ensures
            r.deep_view() == self.value_spec(),
    ;

    /// Reconstructs the type expression this annotation denotes, or says
    /// which shape made that impossible.
    fn print_annotation(&self) -> (r: Result<String, ParseError>)
        ensures
            ann_view(r) == self.annotation_spec(),
    ;
}

impl PyExpr for Expr {
    open spec fn value_spec(&self) -> Option<Seq<char>> {
        spec_print_value(*self)
    }

    open spec fn annotation_spec(&self) -> Result<Seq<char>, ParseError> {
        spec_print_annotation(*self)
    }

    fn print_value(&self) -> (r: Option<String>)
        ensures
            r.deep_view() == spec_print_value(*self),
        decreases *self,
    {
        match self {
            Expr::Constant(c) => match c {
                Constant::Str(s) => {
                    let mut out = String::from_str("'");
                    out.append(s.as_str());
                    out.append("'");
                    Option::Some(out)
                },
                Constant::Int(i) => Option::Some(i.clone()),
                Constant::Bool(b) => Option::Some(
                    if *b {
                        String::from_str("True")
                    } else {
                        String::from_str("False")
                    },
                ),
                Constant::NoneConst => Option::Some(String::from_str("None")),
                _ => Option::None,
            },
            Expr::SetLit(elts) => {
                let parts = collect_value_parts(elts);
                let mut out = String::from_str("{");
                let joined = join_parts(&parts, ", ");
                out.append(joined.as_str());
                out.append("}");
                Option::Some(out)
            },
            Expr::TupleLit(elts) => {
                let parts = collect_value_parts(elts);
                let mut out = String::from_str("(");
                let joined = join_parts(&parts, ", ");
                out.append(joined.as_str());
                out.append(",)");
                Option::Some(out)
            },
            Expr::ListLit(elts) => {
                let parts = collect_value_parts(elts);
                let mut out = String::from_str("[");
                let joined = join_parts(&parts, ", ");
                out.append(joined.as_str());
                out.append("]");
                Option::Some(out)
            },
            Expr::DictLit(entries) => {
                let parts = collect_kv_parts(entries);
                let mut out = String::from_str("{");
                let joined = join_parts(&parts, ", ");
                out.append(joined.as_str());
                out.append("}");
                Option::Some(out)
            },
            _ => Option::None,
        }
    }

    fn print_annotation(&self) -> (r: Result<String, ParseError>)
        ensures
            ann_view(r) == spec_print_annotation(*self),
        decreases *self,
    {
        match self {
            Expr::Name(id) => Result::Ok(id.clone()),
            Expr::Constant(c) => match c {
                Constant::EllipsisConst => Result::Ok(String::from_str("...")),
                Constant::NoneConst => Result::Ok(String::from_str("None")),
                _ => Result::Err(ParseError::UnexpectedExprType(self.kind())),
            },
            Expr::Subscript(v, sl) => {
                let outer: &String = match &**v {
                    Expr::Name(id) => id,
                    _ => {
                        return Result::Err(ParseError::UnexpectedExprType(self.kind()));
                    },
                };
                let inner: String = match &**sl {
                    Expr::Name(id) => id.clone(),
                    Expr::TupleLit(elts) => {
                        match collect_ann_parts(elts) {
                            Result::Ok(parts) => join_parts(&parts, ", "),
                            Result::Err(e) => {
                                return Result::Err(e);
                            },
                        }
                    },
                    _ => {
                        return Result::Err(ParseError::UnexpectedExprType(self.kind()));
                    },
                };
                let mut out = outer.clone();
                out.append("[");
                out.append(inner.as_str());
                out.append("]");
                Result::Ok(out)
            },
            Expr::BinOp(l, r) => {
                let a = match (&**l).print_annotation() {
                    Result::Ok(x) => x,
                    Result::Err(e) => {
                        return Result::Err(e);
                    },
                };
                let b = match (&**r).print_annotation() {
                    Result::Ok(x) => x,
                    Result::Err(e) => {
                        return Result::Err(e);
                    },
                };
                let mut out = a;
                out.append(" | ");
                out.append(b.as_str());
                Result::Ok(out)
            },
            Expr::Attribute(v, attr) => {
                let a = match (&**v).print_annotation() {
                    Result::Ok(x) => x,
                    Result::Err(e) => {
                        return Result::Err(e);
                    },
                };
                let mut out = a;
                out.append(".");
                out.append(attr.as_str());
                Result::Ok(out)
            },
            _ => Result::Err(ParseError::UnexpectedExprType(self.kind())),
        }
    }
}

} // verus!
