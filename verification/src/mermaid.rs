//! The diagram renderer: one class record becomes one diagram block — a
//! class body listing fields and methods with access markers, then one
//! inheritance declaration per parent — all in the canonical order, with
//! dunder-named members suppressed.  The line terminator is threaded in
//! explicitly by the caller.
use vstd::prelude::*;

use crate::members::{spec_is_public, str_is_public, Field, FieldV, Method, MethodV};
use crate::printer::spec_join;
use crate::python::{ClassV, PyClassInfo};
use crate::sets::{FieldSet, MethodSet, StringSet};

verus! {

/// Whether a name both starts and ends with a double underscore.
pub open spec fn spec_is_dunder(s: Seq<char>) -> bool {
    s.len() >= 2 && s[0] == '_' && s[1] == '_' && s[s.len() - 2] == '_' && s[s.len() - 1] == '_'
}

/// Whether a parent name is dotted, and so needs backtick escaping.
pub open spec fn spec_has_dot(s: Seq<char>) -> bool {
    exists|i: int| 0 <= i < s.len() && s[i] == '.'
}

/// The access marker of a member line.
pub open spec fn spec_marker(name: Seq<char>) -> Seq<char> {
    if spec_is_public(name) {
        "+"@
    } else {
        "-"@
    }
}

/// One field line of a class block: marker, name, then the type if there
/// is one, else `= default` if there is one, else nothing more.
pub open spec fn spec_field_line(f: FieldV) -> Seq<char> {
    "        "@ + spec_marker(f.name) + " "@ + f.name + match f.dtype {
        Option::Some(t) => " "@ + t,
        Option::None => match f.default {
            Option::Some(d) => " = "@ + d,
            Option::None => Seq::empty(),
        },
    }
}

/// One argument of a method line: `type name` when annotated, else the
/// bare name.
pub open spec fn spec_arg_text(a: FieldV) -> Seq<char> {
    match a.dtype {
        Option::Some(t) => t + " "@ + a.name,
        Option::None => a.name,
    }
}

/// One method line of a class block.
pub open spec fn spec_method_line(m: MethodV) -> Seq<char> {
    "        "@ + spec_marker(m.name) + " "@ + m.name + "("@ + spec_join(
        m.args.map_values(|a: FieldV| spec_arg_text(a)),
        ", "@,
    ) + ")"@ + match m.returns {
        Option::Some(rt) => " "@ + rt,
        Option::None => Seq::empty(),
    }
}

/// One inheritance declaration, the parent backtick-escaped when dotted.
pub open spec fn spec_parent_line(p: Seq<char>, cls: Seq<char>) -> Seq<char> {
    "    "@ + (if spec_has_dot(p) {
        "`"@ + p + "`"@
    } else {
        p
    }) + " <|-- "@ + cls
}

/// Lines each terminated by `eol`, concatenated.
pub open spec fn spec_lines(ls: Seq<Seq<char>>, eol: Seq<char>) -> Seq<char>
    decreases ls.len(),
{
    if ls.len() == 0 {
        Seq::empty()
    } else {
        spec_lines(ls.drop_last(), eol) + ls.last() + eol
    }
}

/// The view of a render-only class projection.
#[verifier::ext_equal]
pub ghost struct MermaidClassV {
    pub name: Seq<char>,
    pub parents: Seq<Seq<char>>,
    pub fields: Seq<FieldV>,
    pub methods: Seq<MethodV>,
}

/// What projecting a class record for rendering yields: the same record
/// with every dunder-named field and method removed.
pub open spec fn spec_to_mermaid(c: ClassV) -> MermaidClassV {
    MermaidClassV {
        name: c.name,
        parents: c.parents,
        fields: c.fields.filter(|f: FieldV| !spec_is_dunder(f.name)),
        methods: c.methods.filter(|m: MethodV| !spec_is_dunder(m.name)),
    }
}

/// The diagram block of one class: header, member lines, closing brace,
/// then the inheritance declarations, separated from the block by one
/// blank line when there are any.
pub open spec fn spec_print(m: MermaidClassV, eol: Seq<char>) -> Seq<char> {
    "    class "@ + m.name + " {"@ + eol + spec_lines(
        m.fields.map_values(|f: FieldV| spec_field_line(f)),
        eol,
    ) + spec_lines(m.methods.map_values(|mm: MethodV| spec_method_line(mm)), eol) + "    }"@ + eol
        + (if m.parents.len() > 0 {
        eol
    } else {
        Seq::empty()
    }) + spec_lines(m.parents.map_values(|p: Seq<char>| spec_parent_line(p, m.name)), eol)
}

/// A render-only projection of one class record, with dunder members gone.
#[derive(Debug)]
pub struct MermaidClass {
    name: String,
    parents: StringSet,
    fields: FieldSet,
    methods: MethodSet,
}

impl View for MermaidClass {
    type V = MermaidClassV;

    closed spec fn view(&self) -> MermaidClassV {
        MermaidClassV {
            name: self.name@,
            parents: self.parents@,
            fields: self.fields@,
            methods: self.methods@,
        }
    }
}

/// Projection of an extracted record into its render-only form.
pub trait MermaidAdapter: Sized {
    /// What the projection keeps of this record.
    spec fn to_mermaid_spec(&self) -> MermaidClassV;

    /// Builds the render-only projection.
    fn to_mermaid(self) -> (r: MermaidClass)
        ensures
            r@ == self.to_mermaid_spec(),
    ;
}

/// Whether a member name is a dunder name.
pub fn is_dunder(name: &String) -> (r: bool)
    ensures
        r == spec_is_dunder(name@),
{
    let s = name.as_str();
    let n = s.unicode_len();
    if n < 2 {
        false
    } else {
        s.get_char(0) == '_' && s.get_char(1) == '_' && s.get_char(n - 2) == '_' && s.get_char(
            n - 1,
        ) == '_'
    }
}

/// Whether a parent name holds a dot.
pub fn has_dot(name: &String) -> (r: bool)
    ensures
        r == spec_has_dot(name@),
{
    let s = name.as_str();
    let n = s.unicode_len();
    let mut i: usize = 0;
    while i < n
        invariant
            i <= n,
            n == s@.len(),
            s@ == name@,
            forall|k: int| 0 <= k < i ==> s@[k] != '.',
        decreases n - i,
    {
        let c = s.get_char(i);
        if c == '.' {
            proof {
                assert(name@[i as int] == '.');
            }
            return true;
        }
        i = i + 1;
    }
    false
}

/// The non-dunder fields, in their given order.
fn filter_fields(items: Vec<Field>) -> (r: Vec<Field>)
    ensures
        r.deep_view() == items.deep_view().filter(|f: FieldV| !spec_is_dunder(f.name)),
{
    let ghost input = items.deep_view();
    let ghost pred = |f: FieldV| !spec_is_dunder(f.name);
    let mut rest = items;
    let mut out: Vec<Field> = Vec::new();
    let ghost mut consumed: int = 0;
    proof {
        reveal(Seq::filter);
        assert(input.take(0) =~= Seq::<FieldV>::empty());
        assert(input.take(0).filter(pred) =~= Seq::<FieldV>::empty());
        assert(rest.deep_view() =~= input.skip(0));
    }
    while rest.len() > 0
        invariant
            0 <= consumed <= input.len(),
            pred == (|f: FieldV| !spec_is_dunder(f.name)),
            rest.deep_view() == input.skip(consumed),
            out.deep_view() == input.take(consumed).filter(pred),
        decreases rest.len(),
    {
        let ghost old_items = rest@;
        let ghost old_deep = rest.deep_view();
        let fld = rest.remove(0);
        proof {
            assert(old_deep.len() == old_items.len());
            assert(consumed < input.len());
            assert(old_deep[0] == old_items[0].deep_view());
            assert(old_deep[0] == input.skip(consumed)[0]);
            assert(input.skip(consumed)[0] == input[consumed]);
            assert(fld@ == input[consumed]);
            assert(rest@ =~= old_items.subrange(1, old_items.len() as int));
            assert forall|t: int| 0 <= t < rest.deep_view().len() implies rest.deep_view()[t]
                == input.skip(consumed + 1)[t] by {
                assert(rest.deep_view()[t] == rest@[t].deep_view());
                assert(rest@[t] == old_items[t + 1]);
                assert(old_items[t + 1].deep_view() == old_deep[t + 1]);
                assert(old_deep[t + 1] == input.skip(consumed)[t + 1]);
                assert(input.skip(consumed)[t + 1] == input[consumed + 1 + t]);
                assert(input.skip(consumed + 1)[t] == input[consumed + 1 + t]);
            }
            assert(rest.deep_view() =~= input.skip(consumed + 1));
        }
        let ghost before = out.deep_view();
        if !is_dunder(&fld.name) {
            let ghost fv = fld@;
            out.push(fld);
            proof {
                assert(out.deep_view() =~= before.push(fv));
            }
        }
        proof {
            reveal(Seq::filter);
            assert(input.take(consumed + 1).len() == consumed + 1);
            assert(input.take(consumed + 1).drop_last() =~= input.take(consumed));
            assert(input.take(consumed + 1).last() == input[consumed]);
            assert(input.take(consumed + 1).filter(pred) == (if pred(input[consumed]) {
                input.take(consumed).filter(pred).push(input[consumed])
            } else {
                input.take(consumed).filter(pred)
            }));
            assert(out.deep_view() =~= input.take(consumed + 1).filter(pred));
            consumed = consumed + 1;
        }
    }
    proof {
        assert(consumed == input.len());
        assert(input.take(input.len() as int) =~= input);
    }
    out
}

/// The non-dunder methods, in their given order.
fn filter_methods(items: Vec<Method>) -> (r: Vec<Method>)
    ensures
        r.deep_view() == items.deep_view().filter(|m: MethodV| !spec_is_dunder(m.name)),
{
    let ghost input = items.deep_view();
    let ghost pred = |m: MethodV| !spec_is_dunder(m.name);
    let mut rest = items;
    let mut out: Vec<Method> = Vec::new();
    let ghost mut consumed: int = 0;
    proof {
        reveal(Seq::filter);
        assert(input.take(0) =~= Seq::<MethodV>::empty());
        assert(input.take(0).filter(pred) =~= Seq::<MethodV>::empty());
        assert(rest.deep_view() =~= input.skip(0));
    }
    while rest.len() > 0
        invariant
            0 <= consumed <= input.len(),
            pred == (|m: MethodV| !spec_is_dunder(m.name)),
            rest.deep_view() == input.skip(consumed),
            out.deep_view() == input.take(consumed).filter(pred),
        decreases rest.len(),
    {
        let ghost old_items = rest@;
        let ghost old_deep = rest.deep_view();
        let m = rest.remove(0);
        proof {
            assert(old_deep.len() == old_items.len());
            assert(consumed < input.len());
            assert(old_deep[0] == old_items[0].deep_view());
            assert(old_deep[0] == input.skip(consumed)[0]);
            assert(input.skip(consumed)[0] == input[consumed]);
            assert(m@ == input[consumed]);
            assert(rest@ =~= old_items.subrange(1, old_items.len() as int));
            assert forall|t: int| 0 <= t < rest.deep_view().len() implies rest.deep_view()[t]
                == input.skip(consumed + 1)[t] by {
                assert(rest.deep_view()[t] == rest@[t].deep_view());
                assert(rest@[t] == old_items[t + 1]);
                assert(old_items[t + 1].deep_view() == old_deep[t + 1]);
                assert(old_deep[t + 1] == input.skip(consumed)[t + 1]);
                assert(input.skip(consumed)[t + 1] == input[consumed + 1 + t]);
                assert(input.skip(consumed + 1)[t] == input[consumed + 1 + t]);
            }
            assert(rest.deep_view() =~= input.skip(consumed + 1));
        }
        let ghost before = out.deep_view();
        if !is_dunder(&m.name) {
            let ghost mv = m@;
            out.push(m);
            proof {
                assert(out.deep_view() =~= before.push(mv));
            }
        }
        proof {
            reveal(Seq::filter);
            assert(input.take(consumed + 1).len() == consumed + 1);
            assert(input.take(consumed + 1).drop_last() =~= input.take(consumed));
            assert(input.take(consumed + 1).last() == input[consumed]);
            assert(input.take(consumed + 1).filter(pred) == (if pred(input[consumed]) {
                input.take(consumed).filter(pred).push(input[consumed])
            } else {
                input.take(consumed).filter(pred)
            }));
            assert(out.deep_view() =~= input.take(consumed + 1).filter(pred));
            consumed = consumed + 1;
        }
    }
    proof {
        assert(consumed == input.len());
        assert(input.take(input.len() as int) =~= input);
    }
    out
}

impl MermaidAdapter for PyClassInfo {
    open spec fn to_mermaid_spec(&self) -> MermaidClassV {
        spec_to_mermaid(self@)
    }

    fn to_mermaid(self) -> (r: MermaidClass)
        ensures
            r@ == self.to_mermaid_spec(),
    {
        let PyClassInfo { name, parents, fields, methods } = self;
        let kept_fields = filter_fields(fields.items);
        let kept_methods = filter_methods(methods.items);
        MermaidClass {
            name,
            parents,
            fields: FieldSet { items: kept_fields },
            methods: MethodSet { items: kept_methods },
        }
    }
}

impl MermaidClass {
    /// The access marker for a member of the given publicity.
    pub fn get_access_modifier(is_public_member: bool) -> (r: String)
        ensures
            r@ == (if is_public_member {
                "+"@
            } else {
                "-"@
            }),
    {
        if is_public_member {
            String::from_str("+")
        } else {
            String::from_str("-")
        }
    }

    /// The field lines of the class block, in canonical order, one string
    /// per line, without terminators.
    pub fn make_class_fields(&self) -> (r: Vec<String>)
        ensures
            r.deep_view() == self@.fields.map_values(|f: FieldV| spec_field_line(f)),
    {
        let ghost fv = self@.fields;
        let mut out: Vec<String> = Vec::new();
        let mut i: usize = 0;
        proof {
            assert(fv.take(0) =~= Seq::<FieldV>::empty());
            assert(out.deep_view() =~= fv.take(0).map_values(|f: FieldV| spec_field_line(f)));
        }
        while i < self.fields.items.len()
            invariant
                i <= self.fields.items.len(),
                fv == self@.fields,
                fv.len() == self.fields.items.len(),
                out.deep_view() == fv.take(i as int).map_values(|f: FieldV| spec_field_line(f)),
            decreases self.fields.items.len() - i,
        {
            let fld = &self.fields.items[i];
            proof {
                assert(fld@ == fv[i as int]);
            }
            let mut line = String::from_str("        ");
            let marker = Self::get_access_modifier(str_is_public(&fld.name));
            line.append(marker.as_str());
            line.append(" ");
            line.append(fld.name.as_str());
            match &fld.dtype {
                Option::Some(t) => {
                    line.append(" ");
                    line.append(t.as_str());
                },
                Option::None => {
                    match &fld.default {
                        Option::Some(d) => {
                            line.append(" = ");
                            line.append(d.as_str());
                        },
                        Option::None => {},
                    }
                },
            }
            proof {
                assert(line@ == spec_field_line(fv[i as int]));
            }
            let ghost before = out.deep_view();
            let ghost lv = line@;
            out.push(line);
            proof {
                assert(out.deep_view() =~= before.push(lv));
                assert(fv.take(i + 1).drop_last() =~= fv.take(i as int));
                assert(fv.take(i + 1).last() == fv[i as int]);
                assert(out.deep_view() =~= fv.take(i + 1).map_values(
                    |f: FieldV| spec_field_line(f),
                ));
            }
            i = i + 1;
        }
        proof {
            assert(fv.take(fv.len() as int) =~= fv);
        }
        out
    }

    /// The method lines of the class block, in canonical order, one
    /// string per line, without terminators.
    pub fn make_class_methods(&self) -> (r: Vec<String>)
        ensures
            r.deep_view() == self@.methods.map_values(|m: MethodV| spec_method_line(m)),
    {
        let ghost mv = self@.methods;
        let mut out: Vec<String> = Vec::new();
        let mut i: usize = 0;
        proof {
            assert(mv.take(0) =~= Seq::<MethodV>::empty());
            assert(out.deep_view() =~= mv.take(0).map_values(|m: MethodV| spec_method_line(m)));
        }
        while i < self.methods.items.len()
            invariant
                i <= self.methods.items.len(),
                mv == self@.methods,
                mv.len() == self.methods.items.len(),
                out.deep_view() == mv.take(i as int).map_values(|m: MethodV| spec_method_line(m)),
            decreases self.methods.items.len() - i,
        {
            let m = &self.methods.items[i];
            proof {
                assert(m@ == mv[i as int]);
            }
            let mut line = String::from_str("        ");
            let marker = Self::get_access_modifier(str_is_public(&m.name));
            line.append(marker.as_str());
            line.append(" ");
            line.append(m.name.as_str());
            line.append("(");
            let ghost args = m@.args;
            let mut parts: Vec<String> = Vec::new();
            let mut j: usize = 0;
            proof {
                assert(args.take(0) =~= Seq::<FieldV>::empty());
                assert(parts.deep_view() =~= args.take(0).map_values(
                    |a: FieldV| spec_arg_text(a),
                ));
            }
            while j < m.args.len()
                invariant
                    j <= m.args.len(),
                    args == m@.args,
                    args.len() == m.args.len(),
                    parts.deep_view() == args.take(j as int).map_values(
                        |a: FieldV| spec_arg_text(a),
                    ),
                decreases m.args.len() - j,
            {
                let a = &m.args[j];
                proof {
                    assert(a@ == args[j as int]);
                }
                let part: String = match &a.dtype {
                    Option::Some(t) => {
                        let mut p = t.clone();
                        p.append(" ");
                        p.append(a.name.as_str());
                        p
                    },
                    Option::None => a.name.clone(),
                };
                proof {
                    assert(part@ == spec_arg_text(args[j as int]));
                }
                let ghost before = parts.deep_view();
                let ghost pv = part@;
                parts.push(part);
                proof {
                    assert(parts.deep_view() =~= before.push(pv));
                    assert(args.take(j + 1).drop_last() =~= args.take(j as int));
                    assert(args.take(j + 1).last() == args[j as int]);
                    assert(parts.deep_view() =~= args.take(j + 1).map_values(
                        |a2: FieldV| spec_arg_text(a2),
                    ));
                }
                j = j + 1;
            }
            proof {
                assert(args.take(args.len() as int) =~= args);
            }
            let joined = crate::printer::join_parts(&parts, ", ");
            line.append(joined.as_str());
            line.append(")");
            match &m.returns {
                Option::Some(rt) => {
                    line.append(" ");
                    line.append(rt.as_str());
                },
                Option::None => {},
            }
            proof {
                assert(line@ == spec_method_line(mv[i as int]));
            }
            let ghost before = out.deep_view();
            let ghost lv = line@;
            out.push(line);
            proof {
                assert(out.deep_view() =~= before.push(lv));
                assert(mv.take(i + 1).drop_last() =~= mv.take(i as int));
                assert(mv.take(i + 1).last() == mv[i as int]);
                assert(out.deep_view() =~= mv.take(i + 1).map_values(
                    |m2: MethodV| spec_method_line(m2),
                ));
            }
            i = i + 1;
        }
        proof {
            assert(mv.take(mv.len() as int) =~= mv);
        }
        out
    }

    /// The whole diagram block of this class, each line ended by `eol`.
    pub fn print(&self, eol: &str) -> (r: String)
        ensures
            r@ == spec_print(self@, eol@),
    {
        let mut result = String::from_str("    class ");
        result.append(self.name.as_str());
        result.append(" {");
        result.append(eol);

        let field_lines = self.make_class_fields();
        let ghost fls = field_lines.deep_view();
        let mut i: usize = 0;
        let ghost head = result@;
        proof {
            assert(fls.take(0) =~= Seq::<Seq<char>>::empty());
            assert(result@ =~= head + spec_lines(fls.take(0), eol@));
        }
        while i < field_lines.len()
            invariant
                i <= field_lines.len(),
                fls == field_lines.deep_view(),
                fls.len() == field_lines.len(),
                result@ == head + spec_lines(fls.take(i as int), eol@),
            decreases field_lines.len() - i,
        {
            result.append(field_lines[i].as_str());
            result.append(eol);
            proof {
                assert(field_lines[i as int].deep_view() == fls[i as int]);
                assert(fls.take(i + 1).drop_last() =~= fls.take(i as int));
                assert(fls.take(i + 1).last() == fls[i as int]);
            }
            i = i + 1;
        }
        proof {
            assert(fls.take(fls.len() as int) =~= fls);
        }

        let method_lines = self.make_class_methods();
        let ghost mls = method_lines.deep_view();
        let mut j: usize = 0;
        let ghost head2 = result@;
        proof {
            assert(mls.take(0) =~= Seq::<Seq<char>>::empty());
            assert(result@ =~= head2 + spec_lines(mls.take(0), eol@));
        }
        while j < method_lines.len()
            invariant
                j <= method_lines.len(),
                mls == method_lines.deep_view(),
                mls.len() == method_lines.len(),
                result@ == head2 + spec_lines(mls.take(j as int), eol@),
            decreases method_lines.len() - j,
        {
            result.append(method_lines[j].as_str());
            result.append(eol);
            proof {
                assert(method_lines[j as int].deep_view() == mls[j as int]);
                assert(mls.take(j + 1).drop_last() =~= mls.take(j as int));
                assert(mls.take(j + 1).last() == mls[j as int]);
            }
            j = j + 1;
        }
        proof {
            assert(mls.take(mls.len() as int) =~= mls);
        }

        result.append("    }");
        result.append(eol);
        if self.parents.len() > 0 {
            result.append(eol);
        }

        let ghost ps = self@.parents;
        let ghost plines = ps.map_values(|p: Seq<char>| spec_parent_line(p, self@.name));
        let ghost head3 = result@;
        let mut k: usize = 0;
        proof {
            assert(plines.take(0) =~= Seq::<Seq<char>>::empty());
            assert(result@ =~= head3 + spec_lines(plines.take(0), eol@));
        }
        while k < self.parents.items.len()
            invariant
                k <= self.parents.items.len(),
                ps == self@.parents,
                plines == ps.map_values(|p: Seq<char>| spec_parent_line(p, self@.name)),
                ps.len() == self.parents.items.len(),
                plines.len() == ps.len(),
                result@ == head3 + spec_lines(plines.take(k as int), eol@),
            decreases self.parents.items.len() - k,
        {
            let parent = &self.parents.items[k];
            proof {
                assert(parent@ == ps[k as int]);
            }
            result.append("    ");
            if has_dot(parent) {
                result.append("`");
                result.append(parent.as_str());
                result.append("`");
            } else {
                result.append(parent.as_str());
            }
            result.append(" <|-- ");
            result.append(self.name.as_str());
            result.append(eol);
            proof {
                assert(plines[k as int] == spec_parent_line(ps[k as int], self@.name));
                assert(plines.take(k + 1).drop_last() =~= plines.take(k as int));
                assert(plines.take(k + 1).last() == plines[k as int]);
            }
            k = k + 1;
        }
        proof {
            assert(plines.take(plines.len() as int) =~= plines);
        }
        result
    }
}

/// A whole diagram: the fixed diagram-type header, then one block per
/// record, joined by the line terminator.
pub fn make_class_diagram<T: MermaidAdapter>(nodes: Vec<T>, eol: &str) -> (r: String)
    ensures
        r@ == spec_join(
            seq!["classDiagram"@] + nodes@.map_values(
                |n: T| spec_print(n.to_mermaid_spec(), eol@),
            ),
            eol@,
        ),
{
    let ghost input = nodes@;
    let ghost blocks = seq!["classDiagram"@] + input.map_values(
        |n: T| spec_print(n.to_mermaid_spec(), eol@),
    );
    let mut parts: Vec<String> = Vec::new();
    parts.push(String::from_str("classDiagram"));
    let mut rest = nodes;
    let ghost mut consumed: int = 0;
    proof {
        assert(parts.deep_view() =~= blocks.take(1));
        assert(rest@ =~= input.skip(0));
    }
    while rest.len() > 0
        invariant
            0 <= consumed <= input.len(),
            rest@ == input.skip(consumed),
            blocks == seq!["classDiagram"@] + input.map_values(
                |n: T| spec_print(n.to_mermaid_spec(), eol@),
            ),
            blocks.len() == input.len() + 1,
            parts.deep_view() == blocks.take(consumed + 1),
        decreases rest.len(),
    {
        let ghost old_items = rest@;
        let node = rest.remove(0);
        proof {
            assert(consumed < input.len());
            assert(node == input.skip(consumed)[0]);
            assert(input.skip(consumed)[0] == input[consumed]);
            assert(rest@ =~= old_items.subrange(1, old_items.len() as int));
            assert forall|t: int| 0 <= t < rest@.len() implies rest@[t] == input.skip(
                consumed + 1,
            )[t] by {
                assert(rest@[t] == old_items[t + 1]);
                assert(old_items[t + 1] == input.skip(consumed)[t + 1]);
                assert(input.skip(consumed)[t + 1] == input[consumed + 1 + t]);
                assert(input.skip(consumed + 1)[t] == input[consumed + 1 + t]);
            }
            assert(rest@ =~= input.skip(consumed + 1));
        }
        let block = node.to_mermaid().print(eol);
        let ghost bv = block@;
        let ghost before = parts.deep_view();
        parts.push(block);
        proof {
            assert(parts.deep_view() =~= before.push(bv));
            assert(blocks[consumed + 1] == input.map_values(
                |n: T| spec_print(n.to_mermaid_spec(), eol@),
            )[consumed]);
            assert(bv == blocks[consumed + 1]);
            assert(blocks.take(consumed + 2).drop_last() =~= blocks.take(consumed + 1));
            assert(blocks.take(consumed + 2).last() == blocks[consumed + 1]);
            assert(parts.deep_view() =~= blocks.take(consumed + 2));
            consumed = consumed + 1;
        }
    }
    proof {
        assert(consumed == input.len());
        assert(blocks.take(blocks.len() as int) =~= blocks);
    }
    crate::printer::join_parts(&parts, eol)
}

} // verus!
