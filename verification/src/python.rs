//! Class extraction: walking one class-definition node into a semantic
//! class record, and scanning a module's top-level statements into a
//! sequence of per-class results.  One class's failure never suppresses a
//! sibling's extraction.
use vstd::prelude::*;

use crate::ast::{kind_of, AnnAssign, Assign, ClassDef, Constant, Expr, FunctionDef, Param, Stmt};
use crate::errors::ParseError;
use crate::members::{field_lt_f, method_lt_f, Field, FieldV, Method, MethodV};
use crate::order::sorted_ins;
use crate::printer::{spec_print_annotation, spec_print_value, PyExpr};
use crate::sets::{str_eq_exec, FieldSet, MethodSet, StringSet};

verus! {

/// A printed annotation, with a failure flattened to "no annotation".
pub open spec fn ann_ok(r: Result<Seq<char>, ParseError>) -> Option<Seq<char>> {
    match r {
        Result::Ok(s) => Option::Some(s),
        Result::Err(_) => Option::None,
    }
}

/// The field a plain assignment `name = value` contributes: the single
/// target must be a simple name, and the type and default are inferred
/// only from a string, integer, boolean or `None` constant; any other
/// constant refuses the assignment, and a non-constant value leaves both
/// type and default empty.
pub open spec fn spec_field_from_assign(a: Assign) -> Result<FieldV, ParseError> {
    if a.targets.len() == 0 {
        Result::Err(ParseError::StmtAssignParse)
    } else {
        match a.targets[0] {
            Expr::Name(id) => match a.value {
                Expr::Constant(c) => match c {
                    Constant::Str(s) => Result::Ok(
                        FieldV {
                            name: id@,
                            dtype: Option::Some("str"@),
                            default: Option::Some(s@),
                        },
                    ),
                    Constant::Int(i) => Result::Ok(
                        FieldV {
                            name: id@,
                            dtype: Option::Some("int"@),
                            default: Option::Some(i@),
                        },
                    ),
                    Constant::Bool(b) => Result::Ok(
                        FieldV {
                            name: id@,
                            dtype: Option::Some("bool"@),
                            default: Option::Some(
                                if b {
                                    "True"@
                                } else {
                                    "False"@
                                },
                            ),
                        },
                    ),
                    Constant::NoneConst => Result::Ok(
                        FieldV {
                            name: id@,
                            dtype: Option::Some("None"@),
                            default: Option::None,
                        },
                    ),
                    _ => Result::Err(ParseError::StmtAssignParse),
                },
                _ => Result::Ok(FieldV { name: id@, dtype: Option::None, default: Option::None }),
            },
            _ => Result::Err(ParseError::StmtAssignParse),
        }
    }
}

/// The field an annotated assignment `name: annotation = value`
/// contributes: the annotation must print (its failure fails the class),
/// the default is best-effort.
pub open spec fn spec_field_from_ann_assign(a: AnnAssign) -> Result<FieldV, ParseError> {
    match spec_print_annotation(a.annotation) {
        Result::Err(e) => Result::Err(e),
        Result::Ok(dt) => match a.target {
            Expr::Name(id) => Result::Ok(
                FieldV {
                    name: id@,
                    dtype: Option::Some(dt),
                    default: match a.value {
                        Option::Some(v) => spec_print_value(v),
                        Option::None => Option::None,
                    },
                },
            ),
            _ => Result::Err(ParseError::ExprParse(kind_of(a.target))),
        },
    }
}

/// The field view of one function parameter: annotation and default are
/// both best-effort.
pub open spec fn spec_param_field(p: Param) -> FieldV {
    FieldV {
        name: p.name@,
        dtype: match p.annotation {
            Option::Some(a) => ann_ok(spec_print_annotation(a)),
            Option::None => Option::None,
        },
        default: match p.default {
            Option::Some(d) => spec_print_value(d),
            Option::None => Option::None,
        },
    }
}

/// The method a function definition contributes: parameters concatenated
/// in positional-only, keyword-only, normal order; the return annotation
/// is best-effort.  Method extraction never fails.
pub open spec fn spec_method(f: FunctionDef) -> MethodV {
    MethodV {
        name: f.name@,
        args: (f.posonlyargs@ + f.kwonlyargs@ + f.args@).map_values(
            |p: Param| spec_param_field(p),
        ),
        returns: match f.returns {
            Option::Some(r) => ann_ok(spec_print_annotation(r)),
            Option::None => Option::None,
        },
    }
}

/// The field a constructor-body target contributes, if it is an attribute
/// access on a name literally spelled `self`: named after the attribute,
/// with no annotation and no default.
pub open spec fn spec_self_attr(target: Expr) -> Option<FieldV> {
    match target {
        Expr::Attribute(v, attr) => match *v {
            Expr::Name(id) => if id@ == "self"@ {
                Option::Some(FieldV { name: attr@, dtype: Option::None, default: Option::None })
            } else {
                Option::None
            },
            _ => Option::None,
        },
        _ => Option::None,
    }
}

/// The fields the targets of one constructor-body assignment contribute,
/// in target order.
pub open spec fn spec_self_attrs(targets: Seq<Expr>) -> Seq<FieldV>
    decreases targets.len(),
{
    if targets.len() == 0 {
        Seq::empty()
    } else {
        spec_self_attrs(targets.drop_last()) + match spec_self_attr(targets.last()) {
            Option::Some(f) => seq![f],
            Option::None => Seq::empty(),
        }
    }
}

/// The fields one constructor-body statement contributes; an annotated
/// assignment's annotation is not kept.
pub open spec fn spec_init_stmt(s: Stmt) -> Seq<FieldV> {
    match s {
        Stmt::Assign(a) => spec_self_attrs(a.targets@),
        Stmt::AnnAssign(a) => spec_self_attrs(seq![a.target]),
        _ => Seq::empty(),
    }
}

/// All fields a constructor body contributes, in statement order.
pub open spec fn spec_init_fields(body: Seq<Stmt>) -> Seq<FieldV>
    decreases body.len(),
{
    if body.len() == 0 {
        Seq::empty()
    } else {
        spec_init_fields(body.drop_last()) + spec_init_stmt(body.last())
    }
}

/// `xs` inserted into the sorted set `s`, left to right.
pub open spec fn ins_fields(s: Seq<FieldV>, xs: Seq<FieldV>) -> Seq<FieldV>
    decreases xs.len(),
{
    if xs.len() == 0 {
        s
    } else {
        sorted_ins(ins_fields(s, xs.drop_last()), xs.last(), field_lt_f())
    }
}

/// The walk over a class body: statements in source order, each folded
/// into the field and method sets, stopping at the first failure.
pub open spec fn spec_scan_body(
    body: Seq<Stmt>,
    fields: Seq<FieldV>,
    methods: Seq<MethodV>,
) -> Result<(Seq<FieldV>, Seq<MethodV>), ParseError>
    decreases body.len(),
{
    if body.len() == 0 {
        Result::Ok((fields, methods))
    } else {
        let rest = body.drop_first();
        match body[0] {
            Stmt::AnnAssign(a) => match spec_field_from_ann_assign(a) {
                Result::Err(e) => Result::Err(e),
                Result::Ok(f) => spec_scan_body(
                    rest,
                    sorted_ins(fields, f, field_lt_f()),
                    methods,
                ),
            },
            Stmt::Assign(a) => match spec_field_from_assign(a) {
                Result::Err(e) => Result::Err(e),
                Result::Ok(f) => spec_scan_body(
                    rest,
                    sorted_ins(fields, f, field_lt_f()),
                    methods,
                ),
            },
            Stmt::AsyncFunctionDef(f) => spec_scan_body(
                rest,
                fields,
                sorted_ins(methods, spec_method(f), method_lt_f()),
            ),
            Stmt::FunctionDef(f) => {
                let fields2 = if f.name@ == "__init__"@ {
                    ins_fields(fields, spec_init_fields(f.body@))
                } else {
                    fields
                };
                spec_scan_body(rest, fields2, sorted_ins(methods, spec_method(f), method_lt_f()))
            },
            _ => spec_scan_body(rest, fields, methods),
        }
    }
}

/// The name one base-class expression contributes: a bare name stands for
/// itself; an attribute access is qualified only when its left-hand side
/// is itself a bare name, and otherwise contributes the attribute alone;
/// anything else refuses the whole class.
pub open spec fn spec_parent_name(e: Expr) -> Result<Seq<char>, ParseError> {
    match e {
        Expr::Name(id) => Result::Ok(id@),
        Expr::Attribute(v, attr) => match *v {
            Expr::Name(id) => Result::Ok(id@ + "."@ + attr@),
            _ => Result::Ok(attr@),
        },
        _ => Result::Err(ParseError::ExprParse(kind_of(e))),
    }
}

/// The walk over the base-class list, folding each name into the parent
/// set, stopping at the first failure.
pub open spec fn spec_scan_bases(bases: Seq<Expr>, parents: Seq<Seq<char>>) -> Result<
    Seq<Seq<char>>,
    ParseError,
>
    decreases bases.len(),
{
    if bases.len() == 0 {
        Result::Ok(parents)
    } else {
        match spec_parent_name(bases[0]) {
            Result::Err(e) => Result::Err(e),
            Result::Ok(p) => spec_scan_bases(
                bases.drop_first(),
                sorted_ins(parents, p, crate::order::str_lt_f()),
            ),
        }
    }
}

/// Whether a base-class expression carries a nonempty identifier token
/// wherever extraction reads one.
pub open spec fn wf_base(e: Expr) -> bool {
    match e {
        Expr::Name(id) => id@.len() > 0,
        Expr::Attribute(v, attr) => attr@.len() > 0 && match *v {
            Expr::Name(id) => id@.len() > 0,
            _ => true,
        },
        _ => true,
    }
}

/// Whether a constructor-body assignment target carries a nonempty
/// attribute name where one would be scraped.
pub open spec fn wf_self_target(e: Expr) -> bool {
    match e {
        Expr::Attribute(_, attr) => attr@.len() > 0,
        _ => true,
    }
}

/// Whether a constructor-body statement's scraped names are nonempty.
pub open spec fn wf_init_stmt(s: Stmt) -> bool {
    match s {
        Stmt::Assign(a) => forall|j: int|
            0 <= j < a.targets@.len() ==> #[trigger] wf_self_target(a.targets@[j]),
        Stmt::AnnAssign(a) => wf_self_target(a.target),
        _ => true,
    }
}

/// Whether a function definition carries only nonempty identifier tokens
/// where extraction reads one: its own name, its parameter names, and the
/// attribute names its body assigns onto `self`.
pub open spec fn wf_function(f: FunctionDef) -> bool {
    &&& f.name@.len() > 0
    &&& forall|i: int|
        0 <= i < f.posonlyargs@.len() ==> (#[trigger] f.posonlyargs@[i]).name@.len() > 0
    &&& forall|i: int|
        0 <= i < f.kwonlyargs@.len() ==> (#[trigger] f.kwonlyargs@[i]).name@.len() > 0
    &&& forall|i: int| 0 <= i < f.args@.len() ==> (#[trigger] f.args@[i]).name@.len() > 0
    &&& forall|i: int| 0 <= i < f.body@.len() ==> #[trigger] wf_init_stmt(f.body@[i])
}

/// Whether a class-body statement carries only nonempty identifier tokens
/// where extraction reads one.
pub open spec fn wf_member_stmt(s: Stmt) -> bool {
    match s {
        Stmt::AnnAssign(a) => match a.target {
            Expr::Name(id) => id@.len() > 0,
            _ => true,
        },
        Stmt::Assign(a) => a.targets@.len() > 0 ==> match a.targets@[0] {
            Expr::Name(id) => id@.len() > 0,
            _ => true,
        },
        Stmt::FunctionDef(f) => wf_function(f),
        Stmt::AsyncFunctionDef(f) => wf_function(f),
        _ => true,
    }
}

/// Whether a class definition carries only nonempty identifier tokens
/// where extraction reads one — what a tree scraped from real source
/// always satisfies.
pub open spec fn wf_class_def(c: ClassDef) -> bool {
    &&& c.name@.len() > 0
    &&& forall|i: int| 0 <= i < c.bases@.len() ==> #[trigger] wf_base(c.bases@[i])
    &&& forall|i: int| 0 <= i < c.body@.len() ==> #[trigger] wf_member_stmt(c.body@[i])
}

/// The view of one extracted class.
#[verifier::ext_equal]
pub ghost struct ClassV {
    pub name: Seq<char>,
    pub parents: Seq<Seq<char>>,
    pub fields: Seq<FieldV>,
    pub methods: Seq<MethodV>,
}

/// One extracted class: its name, the set of its parents' names, and the
/// deduplicated field and method sets, each kept in canonical order.
#[derive(Debug, PartialEq, Eq)]
pub struct PyClassInfo {
    pub name: String,
    pub parents: StringSet,
    pub fields: FieldSet,
    pub methods: MethodSet,
}

impl View for PyClassInfo {
    type V = ClassV;

    open spec fn view(&self) -> ClassV {
        ClassV {
            name: self.name@,
            parents: self.parents@,
            fields: self.fields@,
            methods: self.methods@,
        }
    }
}

/// What extracting one class definition yields: its parents, then its
/// members, the first failure aborting the class.
pub open spec fn spec_extract(cls: ClassDef) -> Result<ClassV, ParseError> {
    match spec_scan_bases(cls.bases@, Seq::empty()) {
        Result::Err(e) => Result::Err(e),
        Result::Ok(ps) => match spec_scan_body(cls.body@, Seq::empty(), Seq::empty()) {
            Result::Err(e) => Result::Err(e),
            Result::Ok(fm) => Result::Ok(
                ClassV { name: cls.name@, parents: ps, fields: fm.0, methods: fm.1 },
            ),
        },
    }
}

/// A per-class result with the record replaced by its view.
pub open spec fn class_result_view(r: Result<PyClassInfo, ParseError>) -> Result<
    ClassV,
    ParseError,
> {
    match r {
        Result::Ok(c) => Result::Ok(c@),
        Result::Err(e) => Result::Err(e),
    }
}

/// Whether a per-class result is well formed (its sets sorted).
pub open spec fn class_result_wf(r: Result<PyClassInfo, ParseError>) -> bool {
    match r {
        Result::Ok(c) => c.wf(),
        Result::Err(_) => true,
    }
}

/// The class-definition statements of a module, in source order.
pub open spec fn spec_classdefs(stmts: Seq<Stmt>) -> Seq<ClassDef>
    decreases stmts.len(),
{
    if stmts.len() == 0 {
        Seq::empty()
    } else {
        spec_classdefs(stmts.drop_last()) + match stmts.last() {
            Stmt::ClassDef(c) => seq![c],
            _ => Seq::empty(),
        }
    }
}

/// A field from a plain assignment in a class body.
pub fn field_from_assign(a: &Assign) -> (r: Result<Field, ParseError>)
    ensures
        match r {
            Result::Ok(f) => spec_field_from_assign(*a) == Result::Ok::<FieldV, ParseError>(f@),
            Result::Err(e) => spec_field_from_assign(*a) == Result::Err::<FieldV, ParseError>(e),
        },
{
    if a.targets.len() == 0 {
        return Result::Err(ParseError::StmtAssignParse);
    }
    let name: String = match &a.targets[0] {
        Expr::Name(id) => id.clone(),
        _ => {
            return Result::Err(ParseError::StmtAssignParse);
        },
    };
    match &a.value {
        Expr::Constant(c) => match c {
            Constant::Str(s) => Result::Ok(
                Field {
                    name,
                    dtype: Option::Some(String::from_str("str")),
                    default: Option::Some(s.clone()),
                },
            ),
            Constant::Int(i) => Result::Ok(
                Field {
                    name,
                    dtype: Option::Some(String::from_str("int")),
                    default: Option::Some(i.clone()),
                },
            ),
            Constant::Bool(b) => Result::Ok(
                Field {
                    name,
                    dtype: Option::Some(String::from_str("bool")),
                    default: Option::Some(
                        if *b {
                            String::from_str("True")
                        } else {
                            String::from_str("False")
                        },
                    ),
                },
            ),
            Constant::NoneConst => Result::Ok(
                Field {
                    name,
                    dtype: Option::Some(String::from_str("None")),
                    default: Option::None,
                },
            ),
            _ => Result::Err(ParseError::StmtAssignParse),
        },
        _ => Result::Ok(Field { name, dtype: Option::None, default: Option::None }),
    }
}

/// A field from an annotated assignment in a class body.
pub fn field_from_ann_assign(a: &AnnAssign) -> (r: Result<Field, ParseError>)
    ensures
        match r {
            Result::Ok(f) => spec_field_from_ann_assign(*a) == Result::Ok::<FieldV, ParseError>(
                f@,
            ),
            Result::Err(e) => spec_field_from_ann_assign(*a) == Result::Err::<FieldV, ParseError>(
                e,
            ),
        },
{
    let dtype: String = match a.annotation.print_annotation() {
        Result::Ok(s) => s,
        Result::Err(e) => {
            return Result::Err(e);
        },
    };
    let name: String = match &a.target {
        Expr::Name(id) => id.clone(),
        _ => {
            return Result::Err(ParseError::ExprParse(a.target.kind()));
        },
    };
    let default: Option<String> = match &a.value {
        Option::Some(v) => v.print_value(),
        Option::None => Option::None,
    };
    Result::Ok(Field { name, dtype: Option::Some(dtype), default })
}

/// The field view of one function parameter.
pub fn param_field(p: &Param) -> (r: Field)
    ensures
        r@ == spec_param_field(*p),
{
    let dtype: Option<String> = match &p.annotation {
        Option::Some(a) => match a.print_annotation() {
            Result::Ok(s) => Option::Some(s),
            Result::Err(_) => Option::None,
        },
        Option::None => Option::None,
    };
    let default: Option<String> = match &p.default {
        Option::Some(d) => d.print_value(),
        Option::None => Option::None,
    };
    Field { name: p.name.clone(), dtype, default }
}

/// The method a function definition contributes.
pub fn method_from_def(f: &FunctionDef) -> (r: Method)
    ensures
        r@ == spec_method(*f),
{
    let ghost all = f.posonlyargs@ + f.kwonlyargs@ + f.args@;
    let mut args: Vec<Field> = Vec::new();
    let mut i: usize = 0;
    while i < f.posonlyargs.len()
        invariant
            i <= f.posonlyargs.len(),
            args.deep_view() == f.posonlyargs@.take(i as int).map_values(
                |p: Param| spec_param_field(p),
            ),
        decreases f.posonlyargs.len() - i,
    {
        let ghost before = args.deep_view();
        let fld = param_field(&f.posonlyargs[i]);
        let ghost fv = fld@;
        args.push(fld);
        proof {
            assert(args.deep_view() =~= before.push(fv));
            assert(args.deep_view() =~= f.posonlyargs@.take(i + 1).map_values(
                |p: Param| spec_param_field(p),
            ));
        }
        i = i + 1;
    }
    let mut j: usize = 0;
    while j < f.kwonlyargs.len()
        invariant
            j <= f.kwonlyargs.len(),
            args.deep_view() == (f.posonlyargs@ + f.kwonlyargs@.take(j as int)).map_values(
                |p: Param| spec_param_field(p),
            ),
        decreases f.kwonlyargs.len() - j,
    {
        let ghost before = args.deep_view();
        let fld = param_field(&f.kwonlyargs[j]);
        let ghost fv = fld@;
        args.push(fld);
        proof {
            assert(args.deep_view() =~= before.push(fv));
            assert((f.posonlyargs@ + f.kwonlyargs@.take(j + 1)) =~= (f.posonlyargs@
                + f.kwonlyargs@.take(j as int)).push(f.kwonlyargs@[j as int]));
            assert(args.deep_view() =~= (f.posonlyargs@ + f.kwonlyargs@.take(j + 1)).map_values(
                |p: Param| spec_param_field(p),
            ));
        }
        j = j + 1;
    }
    let mut k: usize = 0;
    while k < f.args.len()
        invariant
            k <= f.args.len(),
            args.deep_view() == (f.posonlyargs@ + f.kwonlyargs@ + f.args@.take(
                k as int,
            )).map_values(|p: Param| spec_param_field(p)),
        decreases f.args.len() - k,
    {
        let ghost before = args.deep_view();
        let fld = param_field(&f.args[k]);
        let ghost fv = fld@;
        args.push(fld);
        proof {
            assert(args.deep_view() =~= before.push(fv));
            assert((f.posonlyargs@ + f.kwonlyargs@ + f.args@.take(k + 1)) =~= (f.posonlyargs@
                + f.kwonlyargs@ + f.args@.take(k as int)).push(f.args@[k as int]));
            assert(args.deep_view() =~= (f.posonlyargs@ + f.kwonlyargs@ + f.args@.take(
                k + 1,
            )).map_values(|p: Param| spec_param_field(p)));
        }
        k = k + 1;
    }
    proof {
        assert(f.posonlyargs@.take(f.posonlyargs@.len() as int) =~= f.posonlyargs@);
        assert(f.kwonlyargs@.take(f.kwonlyargs@.len() as int) =~= f.kwonlyargs@);
        assert(f.args@.take(f.args@.len() as int) =~= f.args@);
    }
    let returns: Option<String> = match &f.returns {
        Option::Some(r) => match r.print_annotation() {
            Result::Ok(s) => Option::Some(s),
            Result::Err(_) => Option::None,
        },
        Option::None => Option::None,
    };
    Method { name: f.name.clone(), args, returns }
}

impl PyClassInfo {
    /// The container invariant: each of the three sets is sorted.
    pub open spec fn wf(&self) -> bool {
        self.parents.wf() && self.fields.wf() && self.methods.wf()
    }

    /// The class's own identifier, verbatim.
    pub fn get_class_name(cls: &ClassDef) -> (r: String)
        ensures
            r@ == cls.name@,
    {
        cls.name.clone()
    }

    /// The set of parent names scraped from the base-class list.
    pub fn get_parent_class_names(cls: &ClassDef) -> (r: Result<StringSet, ParseError>)
        ensures
            match r {
                Result::Ok(ps) => spec_scan_bases(cls.bases@, Seq::empty()) == Result::Ok::<
                    Seq<Seq<char>>,
                    ParseError,
                >(ps@) && ps.wf(),
                Result::Err(e) => spec_scan_bases(cls.bases@, Seq::empty()) == Result::Err::<
                    Seq<Seq<char>>,
                    ParseError,
                >(e),
            },
    {
        let mut parents = StringSet::new();
        let mut i: usize = 0;
        proof {
            assert(cls.bases@.skip(0) =~= cls.bases@);
        }
        while i < cls.bases.len()
            invariant
                i <= cls.bases.len(),
                parents.wf(),
                spec_scan_bases(cls.bases@, Seq::empty()) == spec_scan_bases(
                    cls.bases@.skip(i as int),
                    parents@,
                ),
            decreases cls.bases.len() - i,
        {
            proof {
                assert(cls.bases@.skip(i as int)[0] == cls.bases@[i as int]);
                assert(cls.bases@.skip(i as int).drop_first() =~= cls.bases@.skip(i + 1));
            }
            let name: String = match &cls.bases[i] {
                Expr::Name(id) => id.clone(),
                Expr::Attribute(v, attr) => match &**v {
                    Expr::Name(id) => {
                        let mut q = id.clone();
                        q.append(".");
                        q.append(attr.as_str());
                        q
                    },
                    _ => attr.clone(),
                },
                other => {
                    return Result::Err(ParseError::ExprParse(other.kind()));
                },
            };
            parents.insert(name);
            i = i + 1;
        }
        proof {
            assert(cls.bases@.skip(cls.bases@.len() as int).len() == 0);
        }
        Result::Ok(parents)
    }

    /// The fields a constructor body assigns onto `self`, in source order.
    pub fn get_fields_from_init(func: &FunctionDef) -> (r: Vec<Field>)
        ensures
            r.deep_view() == spec_init_fields(func.body@),
    {
        let mut out: Vec<Field> = Vec::new();
        let mut i: usize = 0;
        proof {
            assert(func.body@.take(0) =~= Seq::<Stmt>::empty());
            assert(out.deep_view() =~= spec_init_fields(func.body@.take(0)));
        }
        while i < func.body.len()
            invariant
                i <= func.body.len(),
                out.deep_view() == spec_init_fields(func.body@.take(i as int)),
            decreases func.body.len() - i,
        {
            match &func.body[i] {
                Stmt::Assign(a) => {
                    let mut j: usize = 0;
                    proof {
                        assert(a.targets@.take(0) =~= Seq::<Expr>::empty());
                        assert(spec_self_attrs(a.targets@.take(0)) =~= Seq::<FieldV>::empty());
                        assert(out.deep_view() + Seq::<FieldV>::empty() =~= out.deep_view());
                    }
                    let ghost base = out.deep_view();
                    while j < a.targets.len()
                        invariant
                            j <= a.targets.len(),
                            out.deep_view() == base + spec_self_attrs(a.targets@.take(j as int)),
                        decreases a.targets.len() - j,
                    {
                        let ghost before = out.deep_view();
                        match &a.targets[j] {
                            Expr::Attribute(v, attr) => match &**v {
                                Expr::Name(id) => {
                                    if str_eq_exec(id.as_str(), "self") {
                                        let fld = Field {
                                            name: attr.clone(),
                                            dtype: Option::None,
                                            default: Option::None,
                                        };
                                        let ghost fv = fld@;
                                        out.push(fld);
                                        proof {
                                            assert(out.deep_view() =~= before.push(fv));
                                        }
                                    }
                                },
                                _ => {},
                            },
                            _ => {},
                        }
                        proof {
                            assert(a.targets@.take(j + 1).drop_last() =~= a.targets@.take(
                                j as int,
                            ));
                            assert(a.targets@.take(j + 1).last() == a.targets@[j as int]);
                            assert(out.deep_view() =~= base + spec_self_attrs(
                                a.targets@.take(j + 1),
                            ));
                        }
                        j = j + 1;
                    }
                    proof {
                        assert(a.targets@.take(a.targets@.len() as int) =~= a.targets@);
                    }
                },
                Stmt::AnnAssign(a) => {
                    let ghost before = out.deep_view();
                    match &a.target {
                        Expr::Attribute(v, attr) => match &**v {
                            Expr::Name(id) => {
                                if str_eq_exec(id.as_str(), "self") {
                                    let fld = Field {
                                        name: attr.clone(),
                                        dtype: Option::None,
                                        default: Option::None,
                                    };
                                    let ghost fv = fld@;
                                    out.push(fld);
                                    proof {
                                        assert(out.deep_view() =~= before.push(fv));
                                    }
                                }
                            },
                            _ => {},
                        },
                        _ => {},
                    }
                    proof {
                        assert(seq![a.target].drop_last() =~= Seq::<Expr>::empty());
                        assert(seq![a.target].last() == a.target);
                        assert(spec_self_attrs(Seq::<Expr>::empty()) =~= Seq::<FieldV>::empty());
                        assert(out.deep_view() =~= before + spec_init_stmt(func.body@[i as int]));
                    }
                },
                _ => {},
            }
            proof {
                assert(func.body@.take(i + 1).drop_last() =~= func.body@.take(i as int));
                assert(func.body@.take(i + 1).last() == func.body@[i as int]);
                assert(out.deep_view() =~= spec_init_fields(func.body@.take(i + 1)));
            }
            i = i + 1;
        }
        proof {
            assert(func.body@.take(func.body@.len() as int) =~= func.body@);
        }
        out
    }

    /// The deduplicated field and method sets of one class body.
    pub fn get_fields_and_methods(cls: &ClassDef) -> (r: Result<(FieldSet, MethodSet), ParseError>)
        ensures
            match r {
                Result::Ok(fm) => spec_scan_body(cls.body@, Seq::empty(), Seq::empty())
                    == Result::Ok::<(Seq<FieldV>, Seq<MethodV>), ParseError>((fm.0@, fm.1@))
                    && fm.0.wf() && fm.1.wf(),
                Result::Err(e) => spec_scan_body(cls.body@, Seq::empty(), Seq::empty())
                    == Result::Err::<(Seq<FieldV>, Seq<MethodV>), ParseError>(e),
            },
    {
        let mut fields = FieldSet::new();
        let mut methods = MethodSet::new();
        let mut i: usize = 0;
        proof {
            assert(cls.body@.skip(0) =~= cls.body@);
        }
        while i < cls.body.len()
            invariant
                i <= cls.body.len(),
                fields.wf(),
                methods.wf(),
                spec_scan_body(cls.body@, Seq::empty(), Seq::empty()) == spec_scan_body(
                    cls.body@.skip(i as int),
                    fields@,
                    methods@,
                ),
            decreases cls.body.len() - i,
        {
            proof {
                assert(cls.body@.skip(i as int)[0] == cls.body@[i as int]);
                assert(cls.body@.skip(i as int).drop_first() =~= cls.body@.skip(i + 1));
            }
            match &cls.body[i] {
                Stmt::AnnAssign(a) => {
                    match field_from_ann_assign(a) {
                        Result::Ok(f) => fields.insert(f),
                        Result::Err(e) => {
                            return Result::Err(e);
                        },
                    }
                },
                Stmt::Assign(a) => {
                    match field_from_assign(a) {
                        Result::Ok(f) => fields.insert(f),
                        Result::Err(e) => {
                            return Result::Err(e);
                        },
                    }
                },
                Stmt::AsyncFunctionDef(func) => {
                    let m = method_from_def(func);
                    methods.insert(m);
                },
                Stmt::FunctionDef(func) => {
                    let m = method_from_def(func);
                    if str_eq_exec(m.name.as_str(), "__init__") {
                        let extra = Self::get_fields_from_init(func);
                        let ghost base = fields@;
                        let ghost contribs = extra.deep_view();
                        proof {
                            assert(contribs.take(0) =~= Seq::<FieldV>::empty());
                            assert(ins_fields(base, contribs.take(0)) =~= base);
                        }
                        let mut extra_iter = extra;
                        let ghost mut consumed: int = 0;
                        // Move fields out one by one, front to back.
                        while extra_iter.len() > 0
                            invariant
                                0 <= consumed <= contribs.len(),
                                extra_iter.deep_view() == contribs.skip(consumed),
                                fields.wf(),
                                fields@ == ins_fields(base, contribs.take(consumed)),
                            decreases extra_iter.len(),
                        {
                            let ghost old_items = extra_iter@;
                            let ghost old_deep = extra_iter.deep_view();
                            let fld = extra_iter.remove(0);
                            proof {
                                assert(old_deep.len() == old_items.len());
                                assert(old_items.len() > 0);
                                assert(contribs.skip(consumed).len() == contribs.len() - consumed);
                                assert(consumed < contribs.len());
                                assert(old_deep[0] == old_items[0].deep_view());
                                assert(old_deep[0] == contribs.skip(consumed)[0]);
                                assert(contribs.skip(consumed)[0] == contribs[consumed]);
                                assert(fld@ == contribs[consumed]);
                            }
                            fields.insert(fld);
                            proof {
                                assert(extra_iter@ =~= old_items.subrange(
                                    1,
                                    old_items.len() as int,
                                ));
                                assert(extra_iter.deep_view().len() == extra_iter@.len());
                                assert(extra_iter@.len() == old_items.len() - 1);
                                assert(contribs.skip(consumed + 1).len() == contribs.len() - (
                                consumed + 1));
                                assert forall|t: int|
                                    0 <= t < extra_iter.deep_view().len() implies extra_iter
                                    .deep_view()[t] == contribs.skip(consumed + 1)[t] by {
                                    assert(extra_iter.deep_view()[t] == extra_iter@[t].deep_view());
                                    assert(extra_iter@[t] == old_items[t + 1]);
                                    assert(old_items[t + 1].deep_view() == old_deep[t + 1]);
                                    assert(old_deep[t + 1] == contribs.skip(consumed)[t + 1]);
                                    assert(contribs.skip(consumed)[t + 1] == contribs[consumed + 1
                                        + t]);
                                    assert(contribs.skip(consumed + 1)[t] == contribs[consumed + 1
                                        + t]);
                                }
                                assert(extra_iter.deep_view() =~= contribs.skip(consumed + 1));
                                assert(contribs.take(consumed + 1).drop_last() =~= contribs.take(
                                    consumed,
                                ));
                                assert(contribs.take(consumed + 1).last() == contribs[consumed]);
                                consumed = consumed + 1;
                            }
                        }
                        proof {
                            assert(contribs.take(contribs.len() as int) =~= contribs);
                            assert(consumed == contribs.len());
                        }
                    }
                    methods.insert(m);
                },
                _ => {},
            }
            i = i + 1;
        }
        proof {
            assert(cls.body@.skip(cls.body@.len() as int).len() == 0);
        }
        Result::Ok((fields, methods))
    }

    /// One class definition extracted into a class record, or the first
    /// failure met on the way.
    pub fn from_class_def(cls: &ClassDef) -> (r: Result<PyClassInfo, ParseError>)
        ensures
            class_result_view(r) == spec_extract(*cls),
            class_result_wf(r),
    {
        let name = Self::get_class_name(cls);
        let parents = match Self::get_parent_class_names(cls) {
            Result::Ok(ps) => ps,
            Result::Err(e) => {
                return Result::Err(e);
            },
        };
        match Self::get_fields_and_methods(cls) {
            Result::Ok(fm) => {
                let (fields, methods) = fm;
                Result::Ok(PyClassInfo { name, parents, fields, methods })
            },
            Result::Err(e) => Result::Err(e),
        }
    }

    /// The module scan: every top-level class definition extracted in
    /// source order, one result per class, failures isolated per class.
    pub fn from_module(stmts: &Vec<Stmt>) -> (r: Vec<Result<PyClassInfo, ParseError>>)
        ensures
            r@.len() == spec_classdefs(stmts@).len(),
            forall|k: int|
                0 <= k < r@.len() ==> #[trigger] class_result_view(r@[k]) == spec_extract(
                    spec_classdefs(stmts@)[k],
                ) && class_result_wf(r@[k]),
    {
        let mut out: Vec<Result<PyClassInfo, ParseError>> = Vec::new();
        let mut i: usize = 0;
        proof {
            assert(stmts@.take(0) =~= Seq::<Stmt>::empty());
        }
        while i < stmts.len()
            invariant
                i <= stmts.len(),
                out@.len() == spec_classdefs(stmts@.take(i as int)).len(),
                forall|k: int|
                    0 <= k < out@.len() ==> #[trigger] class_result_view(out@[k]) == spec_extract(
                        spec_classdefs(stmts@.take(i as int))[k],
                    ) && class_result_wf(out@[k]),
            decreases stmts.len() - i,
        {
            let ghost defs_before = spec_classdefs(stmts@.take(i as int));
            match &stmts[i] {
                Stmt::ClassDef(cls) => {
                    let res = Self::from_class_def(cls);
                    out.push(res);
                    proof {
                        assert(stmts@.take(i + 1).drop_last() =~= stmts@.take(i as int));
                        assert(stmts@.take(i + 1).last() == stmts@[i as int]);
                        assert(spec_classdefs(stmts@.take(i + 1)) =~= defs_before.push(*cls));
                    }
                },
                _ => {
                    proof {
                        assert(stmts@.take(i + 1).drop_last() =~= stmts@.take(i as int));
                        assert(stmts@.take(i + 1).last() == stmts@[i as int]);
                        assert(spec_classdefs(stmts@.take(i + 1)) =~= defs_before);
                    }
                },
            }
            i = i + 1;
        }
        proof {
            assert(stmts@.take(stmts@.len() as int) =~= stmts@);
        }
        out
    }
}

} // verus!
