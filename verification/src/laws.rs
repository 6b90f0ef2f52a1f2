//! The library-wide guarantees that relate several functions: rendering
//! depends only on a record's contents and not on the order its members
//! were found in, dunder members never survive projection, exclusion by
//! ancestor is total, and one class's failure never hides a sibling.
use vstd::prelude::*;

use vstd::relations::sorted_by;

use crate::ast::{ClassDef, Expr, FunctionDef, Param, Stmt};
use crate::errors::ParseError;
use crate::members::{
    field_lt_f, lemma_field_lt_strict_total, lemma_method_lt_strict_total, method_lt_f,
    spec_is_public, FieldV, MethodV,
};
use crate::mermaid::{spec_field_line, spec_is_dunder, spec_print, spec_to_mermaid};
use crate::order::{
    lemma_sorted_ins_all, lemma_sorted_same_set, lemma_str_lt_strict_total, sorted_ins, str_lt_f,
};
use crate::printer::{spec_join, spec_print_value, spec_value_parts};
use crate::python::{
    ins_fields, spec_extract, spec_field_from_ann_assign, spec_field_from_assign,
    spec_init_fields, spec_init_stmt, spec_method, spec_param_field, spec_parent_name,
    spec_scan_bases, spec_scan_body, spec_self_attr, spec_self_attrs, wf_base, wf_class_def,
    wf_init_stmt, wf_member_stmt, wf_self_target, ClassV, PyClassInfo,
};
use crate::{glob_matches, spec_excluded, spec_kept_blocks};

verus! {

/// A one-element tuple literal always prints with a trailing comma before
/// the closing parenthesis: `(v,)`, never `(v)`.
pub proof fn lemma_tuple_single_trailing_comma(elts: Vec<Expr>, v: Seq<char>)
    requires
        elts@.len() == 1,
        spec_print_value(elts@[0]) == Option::Some(v),
    ensures
        spec_print_value(Expr::TupleLit(elts)) == Option::Some("("@ + v + ",)"@),
{
    assert(elts@.drop_last() =~= Seq::<Expr>::empty());
    assert(elts@.last() == elts@[0]);
    assert(spec_value_parts(Seq::<Expr>::empty()) =~= Seq::<Seq<char>>::empty());
    assert(spec_value_parts(elts@) =~= Seq::<Seq<char>>::empty() + seq![v]);
    assert(spec_value_parts(elts@) =~= seq![v]);
    assert(spec_join(seq![v], ", "@) == v);
}

/// Every tuple literal's printed form ends in `,)`, whatever it holds.
pub proof fn lemma_tuple_trailing_comma(elts: Vec<Expr>)
    ensures
        spec_print_value(Expr::TupleLit(elts)) is Some,
        ({
            let text = spec_print_value(Expr::TupleLit(elts))->0;
            text.len() >= 2 && text[text.len() - 2] == ',' && text[text.len() - 1] == ')'
        }),
{
    let text = spec_print_value(Expr::TupleLit(elts))->0;
    reveal_strlit("(");
    reveal_strlit(",)");
    assert(text =~= "("@ + spec_join(spec_value_parts(elts@), ", "@) + ",)"@);
    assert(text[text.len() - 2] == (",)"@)[0]);
    assert(text[text.len() - 1] == (",)"@)[1]);
}

/// No dunder-named member survives the render projection, and every
/// non-dunder member does survive it.
pub proof fn lemma_dunder_members_suppressed(c: ClassV)
    ensures
        forall|i: int|
            0 <= i < spec_to_mermaid(c).fields.len() ==> !spec_is_dunder(
                #[trigger] spec_to_mermaid(c).fields[i].name,
            ),
        forall|i: int|
            0 <= i < spec_to_mermaid(c).methods.len() ==> !spec_is_dunder(
                #[trigger] spec_to_mermaid(c).methods[i].name,
            ),
        forall|i: int|
            0 <= i < c.fields.len() && !spec_is_dunder(c.fields[i].name) ==> spec_to_mermaid(
                c,
            ).fields.contains(#[trigger] c.fields[i]),
        forall|i: int|
            0 <= i < c.methods.len() && !spec_is_dunder(c.methods[i].name) ==> spec_to_mermaid(
                c,
            ).methods.contains(#[trigger] c.methods[i]),
{
    let fpred = |f: FieldV| !spec_is_dunder(f.name);
    let mpred = |m: crate::members::MethodV| !spec_is_dunder(m.name);
    assert forall|i: int| 0 <= i < spec_to_mermaid(c).fields.len() implies !spec_is_dunder(
        #[trigger] spec_to_mermaid(c).fields[i].name,
    ) by {
        Seq::lemma_filter_pred(c.fields, fpred, i);
    }
    assert forall|i: int| 0 <= i < spec_to_mermaid(c).methods.len() implies !spec_is_dunder(
        #[trigger] spec_to_mermaid(c).methods[i].name,
    ) by {
        Seq::lemma_filter_pred(c.methods, mpred, i);
    }
    assert forall|i: int|
        0 <= i < c.fields.len() && !spec_is_dunder(c.fields[i].name) implies spec_to_mermaid(
        c,
    ).fields.contains(#[trigger] c.fields[i]) by {
        Seq::lemma_filter_contains(c.fields, fpred, i);
    }
    assert forall|i: int|
        0 <= i < c.methods.len() && !spec_is_dunder(c.methods[i].name) implies spec_to_mermaid(
        c,
    ).methods.contains(#[trigger] c.methods[i]) by {
        Seq::lemma_filter_contains(c.methods, mpred, i);
    }
}

/// A field line carries `+` at the marker position exactly when the name
/// has no leading underscore, and `-` otherwise; a member named
/// `_private` therefore renders, with a `-` marker.
pub proof fn lemma_field_line_marker(f: FieldV)
    ensures
        spec_field_line(f).len() > 8,
        spec_field_line(f)[8] == (if spec_is_public(f.name) {
            '+'
        } else {
            '-'
        }),
{
    reveal_strlit("        ");
    reveal_strlit("+");
    reveal_strlit("-");
    reveal_strlit(" ");
    let marker = crate::mermaid::spec_marker(f.name);
    assert(("        "@).len() == 8);
    assert(marker.len() == 1);
    assert(("        "@ + marker)[8] == marker[0]);
}

/// A class with an ancestor matching a base-exclusion pattern is
/// excluded, whether or not its own name matches anything.
pub proof fn lemma_excluded_by_ancestor(
    c: ClassV,
    names: Seq<Seq<char>>,
    bases: Seq<Seq<char>>,
    i: int,
    j: int,
)
    requires
        0 <= i < bases.len(),
        0 <= j < c.parents.len(),
        glob_matches(bases[i], c.parents[j]),
    ensures
        spec_excluded(c, names, bases),
{
    assert(exists|jj: int| 0 <= jj < c.parents.len() && glob_matches(bases[i], c.parents[jj]));
}

/// Whether a block is the rendering of this class definition, extracted
/// successfully and kept by the filters.
pub open spec fn is_kept_block_of(
    b: Seq<char>,
    def: ClassDef,
    names: Seq<Seq<char>>,
    bases: Seq<Seq<char>>,
    eol: Seq<char>,
) -> bool {
    match spec_extract(def) {
        Result::Ok(cv) => !spec_excluded(cv, names, bases) && b == spec_print(
            spec_to_mermaid(cv),
            eol,
        ),
        Result::Err(_) => false,
    }
}

/// Every block of the filtered output is the rendering of some class that
/// extracted successfully and matched no exclusion pattern: an excluded
/// or failed class contributes nothing.
pub proof fn lemma_kept_blocks_sound(
    defs: Seq<ClassDef>,
    names: Seq<Seq<char>>,
    bases: Seq<Seq<char>>,
    eol: Seq<char>,
)
    ensures
        forall|b: Seq<char>|
            #[trigger] spec_kept_blocks(defs, names, bases, eol).contains(b) ==> exists|k: int|
                0 <= k < defs.len() && is_kept_block_of(b, defs[k], names, bases, eol),
    decreases defs.len(),
{
    if defs.len() > 0 {
        lemma_kept_blocks_sound(defs.drop_last(), names, bases, eol);
        let prefix = spec_kept_blocks(defs.drop_last(), names, bases, eol);
        let whole = spec_kept_blocks(defs, names, bases, eol);
        assert forall|b: Seq<char>| #[trigger] whole.contains(b) implies exists|k: int|
            0 <= k < defs.len() && is_kept_block_of(b, defs[k], names, bases, eol) by {
            let idx = choose|idx: int| 0 <= idx < whole.len() && whole[idx] == b;
            if idx < prefix.len() {
                assert(prefix[idx] == b);
                assert(prefix.contains(b));
                let k = choose|k: int|
                    0 <= k < defs.drop_last().len() && is_kept_block_of(
                        b,
                        defs.drop_last()[k],
                        names,
                        bases,
                        eol,
                    );
                assert(defs.drop_last()[k] == defs[k]);
                assert(is_kept_block_of(b, defs[k], names, bases, eol));
            } else {
                assert(is_kept_block_of(b, defs.last(), names, bases, eol));
                assert(defs.last() == defs[defs.len() - 1]);
            }
        }
    }
}

/// A class that extracts successfully and matches no exclusion pattern
/// always renders, whatever happens to its siblings: another class's
/// failure or exclusion never suppresses it.
pub proof fn lemma_kept_blocks_complete(
    defs: Seq<ClassDef>,
    names: Seq<Seq<char>>,
    bases: Seq<Seq<char>>,
    eol: Seq<char>,
    k: int,
    cv: ClassV,
)
    requires
        0 <= k < defs.len(),
        spec_extract(defs[k]) == Result::Ok::<ClassV, crate::errors::ParseError>(cv),
        !spec_excluded(cv, names, bases),
    ensures
        spec_kept_blocks(defs, names, bases, eol).contains(spec_print(spec_to_mermaid(cv), eol)),
    decreases defs.len(),
{
    let whole = spec_kept_blocks(defs, names, bases, eol);
    let prefix = spec_kept_blocks(defs.drop_last(), names, bases, eol);
    let b = spec_print(spec_to_mermaid(cv), eol);
    if k == defs.len() - 1 {
        assert(defs.last() == defs[k]);
        assert(whole[prefix.len() as int] == b);
        assert(whole.contains(b));
    } else {
        assert(defs.drop_last()[k] == defs[k]);
        lemma_kept_blocks_complete(defs.drop_last(), names, bases, eol, k, cv);
        let idx = choose|idx: int| 0 <= idx < prefix.len() && prefix[idx] == b;
        assert(whole[idx] == b);
        assert(whole.contains(b));
    }
}

/// Rendering is order-independent with respect to how the members were
/// found and deterministic with respect to the canonical sort: two
/// well-formed records that hold the same name and the same contents are
/// the same record, and render to the same text.
pub proof fn lemma_render_order_independent(c1: PyClassInfo, c2: PyClassInfo, eol: Seq<char>)
    requires
        c1.wf(),
        c2.wf(),
        c1@.name == c2@.name,
        c1@.parents.to_set() == c2@.parents.to_set(),
        c1@.fields.to_set() == c2@.fields.to_set(),
        c1@.methods.to_set() == c2@.methods.to_set(),
    ensures
        c1@ == c2@,
        spec_print(spec_to_mermaid(c1@), eol) == spec_print(spec_to_mermaid(c2@), eol),
{
    lemma_str_lt_strict_total();
    crate::members::lemma_field_lt_strict_total();
    crate::members::lemma_method_lt_strict_total();
    lemma_sorted_same_set(c1@.parents, c2@.parents, str_lt_f());
    lemma_sorted_same_set(c1@.fields, c2@.fields, field_lt_f());
    lemma_sorted_same_set(c1@.methods, c2@.methods, method_lt_f());
    assert(c1@ =~= c2@);
}

/// Every field name in the sequence is nonempty.
pub open spec fn field_names_nonempty(s: Seq<FieldV>) -> bool {
    forall|i: int| 0 <= i < s.len() ==> (#[trigger] s[i]).name.len() > 0
}

/// Every method name and every argument name in the sequence is nonempty.
pub open spec fn method_names_nonempty(s: Seq<MethodV>) -> bool {
    forall|i: int|
        0 <= i < s.len() ==> (#[trigger] s[i]).name.len() > 0 && field_names_nonempty(s[i].args)
}

/// Every parent name in the sequence is nonempty.
pub open spec fn parent_names_nonempty(s: Seq<Seq<char>>) -> bool {
    forall|i: int| 0 <= i < s.len() ==> (#[trigger] s[i]).len() > 0
}

proof fn lemma_scan_bases_nonempty(bases: Seq<Expr>, acc: Seq<Seq<char>>, ps: Seq<Seq<char>>)
    requires
        forall|i: int| 0 <= i < bases.len() ==> #[trigger] wf_base(bases[i]),
        sorted_by(acc, str_lt_f()),
        parent_names_nonempty(acc),
        spec_scan_bases(bases, acc) == Result::Ok::<Seq<Seq<char>>, ParseError>(ps),
    ensures
        parent_names_nonempty(ps),
    decreases bases.len(),
{
    lemma_str_lt_strict_total();
    if bases.len() > 0 {
        assert(wf_base(bases[0]));
        match spec_parent_name(bases[0]) {
            Result::Ok(p) => {
                assert(p.len() > 0) by {
                    match bases[0] {
                        Expr::Attribute(v, attr) => {
                            match *v {
                                Expr::Name(id) => {
                                    reveal_strlit(".");
                                },
                                _ => {},
                            }
                        },
                        _ => {},
                    }
                }
                let acc2 = sorted_ins(acc, p, str_lt_f());
                lemma_sorted_ins_all(acc, p, str_lt_f(), (|q: Seq<char>| q.len() > 0));
                assert(parent_names_nonempty(acc2));
                let rest = bases.drop_first();
                assert forall|i: int| 0 <= i < rest.len() implies #[trigger] wf_base(rest[i]) by {
                    assert(rest[i] == bases[i + 1]);
                    assert(wf_base(bases[i + 1]));
                }
                lemma_scan_bases_nonempty(rest, acc2, ps);
            },
            Result::Err(_) => {},
        }
    }
}

proof fn lemma_self_attrs_nonempty(targets: Seq<Expr>)
    requires
        forall|j: int| 0 <= j < targets.len() ==> #[trigger] wf_self_target(targets[j]),
    ensures
        field_names_nonempty(spec_self_attrs(targets)),
    decreases targets.len(),
{
    if targets.len() > 0 {
        let prefix = targets.drop_last();
        assert forall|j: int| 0 <= j < prefix.len() implies #[trigger] wf_self_target(
            prefix[j],
        ) by {
            assert(prefix[j] == targets[j]);
        }
        lemma_self_attrs_nonempty(prefix);
        assert(wf_self_target(targets.last()));
        let r = spec_self_attrs(targets);
        let rp = spec_self_attrs(prefix);
        assert forall|i: int| 0 <= i < r.len() implies (#[trigger] r[i]).name.len() > 0 by {
            if i < rp.len() {
                assert(r[i] == rp[i]);
            } else {
                assert(r[i] == spec_self_attr(targets.last())->0);
            }
        }
    }
}

proof fn lemma_init_fields_nonempty(body: Seq<Stmt>)
    requires
        forall|i: int| 0 <= i < body.len() ==> #[trigger] wf_init_stmt(body[i]),
    ensures
        field_names_nonempty(spec_init_fields(body)),
    decreases body.len(),
{
    if body.len() > 0 {
        let prefix = body.drop_last();
        assert forall|i: int| 0 <= i < prefix.len() implies #[trigger] wf_init_stmt(
            prefix[i],
        ) by {
            assert(prefix[i] == body[i]);
        }
        lemma_init_fields_nonempty(prefix);
        assert(wf_init_stmt(body.last()));
        let tail = spec_init_stmt(body.last());
        assert(field_names_nonempty(tail)) by {
            match body.last() {
                Stmt::Assign(a) => {
                    lemma_self_attrs_nonempty(a.targets@);
                },
                Stmt::AnnAssign(a) => {
                    let single = seq![a.target];
                    assert forall|j: int| 0 <= j < single.len() implies #[trigger] wf_self_target(
                        single[j],
                    ) by {
                        assert(single[j] == a.target);
                    }
                    lemma_self_attrs_nonempty(single);
                },
                _ => {
                    assert(tail =~= Seq::<FieldV>::empty());
                },
            }
        }
        let r = spec_init_fields(body);
        let rp = spec_init_fields(prefix);
        assert forall|i: int| 0 <= i < r.len() implies (#[trigger] r[i]).name.len() > 0 by {
            if i < rp.len() {
                assert(r[i] == rp[i]);
            } else {
                assert(r[i] == tail[i - rp.len()]);
            }
        }
    }
}

proof fn lemma_ins_fields_all(s: Seq<FieldV>, xs: Seq<FieldV>)
    requires
        sorted_by(s, field_lt_f()),
        field_names_nonempty(s),
        field_names_nonempty(xs),
    ensures
        sorted_by(ins_fields(s, xs), field_lt_f()),
        field_names_nonempty(ins_fields(s, xs)),
    decreases xs.len(),
{
    lemma_field_lt_strict_total();
    if xs.len() > 0 {
        let prefix = xs.drop_last();
        assert forall|i: int| 0 <= i < prefix.len() implies (#[trigger] prefix[i]).name.len()
            > 0 by {
            assert(prefix[i] == xs[i]);
        }
        lemma_ins_fields_all(s, prefix);
        assert(xs.last().name.len() > 0);
        lemma_sorted_ins_all(
            ins_fields(s, prefix),
            xs.last(),
            field_lt_f(),
            (|f: FieldV| f.name.len() > 0),
        );
    }
}

proof fn lemma_method_nonempty(f: FunctionDef)
    requires
        crate::python::wf_function(f),
    ensures
        spec_method(f).name.len() > 0,
        field_names_nonempty(spec_method(f).args),
{
    let all = f.posonlyargs@ + f.kwonlyargs@ + f.args@;
    let args = spec_method(f).args;
    assert(args == all.map_values(|p: Param| spec_param_field(p)));
    assert forall|i: int| 0 <= i < args.len() implies (#[trigger] args[i]).name.len() > 0 by {
        assert(args[i] == spec_param_field(all[i]));
        let np = f.posonlyargs@.len() as int;
        let nk = f.kwonlyargs@.len() as int;
        if i < np {
            assert(all[i] == f.posonlyargs@[i]);
        } else if i < np + nk {
            assert(all[i] == f.kwonlyargs@[i - np]);
        } else {
            assert(all[i] == f.args@[i - np - nk]);
        }
    }
}

proof fn lemma_scan_body_nonempty(
    body: Seq<Stmt>,
    fs: Seq<FieldV>,
    ms: Seq<MethodV>,
    fs2: Seq<FieldV>,
    ms2: Seq<MethodV>,
)
    requires
        forall|i: int| 0 <= i < body.len() ==> #[trigger] wf_member_stmt(body[i]),
        sorted_by(fs, field_lt_f()),
        sorted_by(ms, method_lt_f()),
        field_names_nonempty(fs),
        method_names_nonempty(ms),
        spec_scan_body(body, fs, ms) == Result::Ok::<(Seq<FieldV>, Seq<MethodV>), ParseError>(
            (fs2, ms2),
        ),
    ensures
        field_names_nonempty(fs2),
        method_names_nonempty(ms2),
    decreases body.len(),
{
    lemma_field_lt_strict_total();
    lemma_method_lt_strict_total();
    if body.len() == 0 {
        assert(fs2 == fs && ms2 == ms);
    } else {
        let rest = body.drop_first();
        assert forall|i: int| 0 <= i < rest.len() implies #[trigger] wf_member_stmt(rest[i]) by {
            assert(rest[i] == body[i + 1]);
        }
        assert(wf_member_stmt(body[0]));
        match body[0] {
            Stmt::AnnAssign(a) => {
                match spec_field_from_ann_assign(a) {
                    Result::Ok(f0) => {
                        assert(f0.name.len() > 0);
                        lemma_sorted_ins_all(fs, f0, field_lt_f(), (|f: FieldV| f.name.len() > 0));
                        lemma_scan_body_nonempty(
                            rest,
                            sorted_ins(fs, f0, field_lt_f()),
                            ms,
                            fs2,
                            ms2,
                        );
                    },
                    Result::Err(_) => {},
                }
            },
            Stmt::Assign(a) => {
                match spec_field_from_assign(a) {
                    Result::Ok(f0) => {
                        assert(f0.name.len() > 0);
                        lemma_sorted_ins_all(fs, f0, field_lt_f(), (|f: FieldV| f.name.len() > 0));
                        lemma_scan_body_nonempty(
                            rest,
                            sorted_ins(fs, f0, field_lt_f()),
                            ms,
                            fs2,
                            ms2,
                        );
                    },
                    Result::Err(_) => {},
                }
            },
            Stmt::AsyncFunctionDef(f) => {
                lemma_method_nonempty(f);
                let m = spec_method(f);
                lemma_sorted_ins_all(
                    ms,
                    m,
                    method_lt_f(),
                    (|mm: MethodV| mm.name.len() > 0 && field_names_nonempty(mm.args)),
                );
                lemma_scan_body_nonempty(
                    rest,
                    fs,
                    sorted_ins(ms, m, method_lt_f()),
                    fs2,
                    ms2,
                );
            },
            Stmt::FunctionDef(f) => {
                lemma_method_nonempty(f);
                let m = spec_method(f);
                let fsx = if f.name@ == "__init__"@ {
                    ins_fields(fs, spec_init_fields(f.body@))
                } else {
                    fs
                };
                if f.name@ == "__init__"@ {
                    lemma_init_fields_nonempty(f.body@);
                    lemma_ins_fields_all(fs, spec_init_fields(f.body@));
                }
                lemma_sorted_ins_all(
                    ms,
                    m,
                    method_lt_f(),
                    (|mm: MethodV| mm.name.len() > 0 && field_names_nonempty(mm.args)),
                );
                lemma_scan_body_nonempty(
                    rest,
                    fsx,
                    sorted_ins(ms, m, method_lt_f()),
                    fs2,
                    ms2,
                );
            },
            _ => {
                lemma_scan_body_nonempty(rest, fs, ms, fs2, ms2);
            },
        }
    }
}

/// Every name an extracted class carries — its own, each parent, each
/// field, each method and each method argument — is a nonempty token,
/// provided the identifier tokens of the input tree are, as tokens scraped
/// from real source always are.
pub proof fn lemma_extract_names_nonempty(cls: ClassDef, cv: ClassV)
    requires
        wf_class_def(cls),
        spec_extract(cls) == Result::Ok::<ClassV, ParseError>(cv),
    ensures
        cv.name.len() > 0,
        parent_names_nonempty(cv.parents),
        field_names_nonempty(cv.fields),
        method_names_nonempty(cv.methods),
{
    match spec_scan_bases(cls.bases@, Seq::empty()) {
        Result::Ok(ps) => {
            lemma_scan_bases_nonempty(cls.bases@, Seq::empty(), ps);
            match spec_scan_body(cls.body@, Seq::empty(), Seq::empty()) {
                Result::Ok(fm) => {
                    lemma_scan_body_nonempty(cls.body@, Seq::empty(), Seq::empty(), fm.0, fm.1);
                    assert(cv.name == cls.name@ && cv.parents == ps && cv.fields == fm.0
                        && cv.methods == fm.1);
                },
                Result::Err(_) => {},
            }
        },
        Result::Err(_) => {},
    }
}

} // verus!
