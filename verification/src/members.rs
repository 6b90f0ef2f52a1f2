//! The semantic member records: a named attribute ([`Field`]) and a named
//! callable ([`Method`]), together with their mathematical views and the
//! canonical order over each.  Identity for deduplication and display is
//! the full tuple of a record, compared lexicographically.
use vstd::prelude::*;

use vstd::relations::strict_total_ordering;

use crate::order::{
    lemma_opt_str_lt_conn, lemma_opt_str_lt_trans, lemma_str_lt_conn, lemma_str_lt_trans,
    opt_str_lt, str_lt,
};

verus! {

/// The view of a [`Field`]: its name, printed annotation and printed
/// default, as character sequences.
#[verifier::ext_equal]
pub ghost struct FieldV {
    pub name: Seq<char>,
    pub dtype: Option<Seq<char>>,
    pub default: Option<Seq<char>>,
}

/// The view of a [`Method`].
#[verifier::ext_equal]
pub ghost struct MethodV {
    pub name: Seq<char>,
    pub args: Seq<FieldV>,
    pub returns: Option<Seq<char>>,
}

/// A named attribute: the printed annotation is absent when the source had
/// none, the printed default when there was none or it could not be
/// reconstructed.  The name is a verbatim identifier token, never empty.
#[derive(Debug, PartialEq, Eq)]
pub struct Field {
    pub name: String,
    pub dtype: Option<String>,
    pub default: Option<String>,
}

/// A named callable with its parameters (in positional-only, keyword-only,
/// normal order) and its printed return annotation.
#[derive(Debug, PartialEq, Eq)]
pub struct Method {
    pub name: String,
    pub args: Vec<Field>,
    pub returns: Option<String>,
}

impl View for Field {
    type V = FieldV;

    open spec fn view(&self) -> FieldV {
        FieldV { name: self.name@, dtype: self.dtype.deep_view(), default: self.default.deep_view() }
    }
}

impl DeepView for Field {
    type V = FieldV;

    open spec fn deep_view(&self) -> FieldV {
        self.view()
    }
}

impl View for Method {
    type V = MethodV;

    open spec fn view(&self) -> MethodV {
        MethodV {
            name: self.name@,
            args: self.args.deep_view(),
            returns: self.returns.deep_view(),
        }
    }
}

impl DeepView for Method {
    type V = MethodV;

    open spec fn deep_view(&self) -> MethodV {
        self.view()
    }
}

/// Canonical order on fields: lexicographic over (name, dtype, default).
pub open spec fn field_lt(a: FieldV, b: FieldV) -> bool {
    ||| str_lt(a.name, b.name)
    ||| (a.name == b.name && (opt_str_lt(a.dtype, b.dtype) || (a.dtype == b.dtype && opt_str_lt(
        a.default,
        b.default,
    ))))
}

/// Lexicographic order on parameter lists, element order [`field_lt`].
pub open spec fn args_lt(a: Seq<FieldV>, b: Seq<FieldV>) -> bool
    decreases a.len(),
{
    if b.len() == 0 {
        false
    } else if a.len() == 0 {
        true
    } else if a[0] != b[0] {
        field_lt(a[0], b[0])
    } else {
        args_lt(a.drop_first(), b.drop_first())
    }
}

/// Canonical order on methods: lexicographic over (name, args, returns).
pub open spec fn method_lt(a: MethodV, b: MethodV) -> bool {
    ||| str_lt(a.name, b.name)
    ||| (a.name == b.name && (args_lt(a.args, b.args) || (a.args == b.args && opt_str_lt(
        a.returns,
        b.returns,
    ))))
}

/// The field order as a value.
pub open spec fn field_lt_f() -> spec_fn(FieldV, FieldV) -> bool {
    |a: FieldV, b: FieldV| field_lt(a, b)
}

/// The method order as a value.
pub open spec fn method_lt_f() -> spec_fn(MethodV, MethodV) -> bool {
    |a: MethodV, b: MethodV| method_lt(a, b)
}

/// Asymmetry and connectedness of [`field_lt`] on one pair.
pub proof fn lemma_field_lt_conn(a: FieldV, b: FieldV)
    ensures
        field_lt(a, b) ==> !field_lt(b, a),
        !field_lt(a, b) && !field_lt(b, a) ==> a == b,
{
    lemma_str_lt_conn(a.name, b.name);
    lemma_opt_str_lt_conn(a.dtype, b.dtype);
    lemma_opt_str_lt_conn(a.default, b.default);
    if !field_lt(a, b) && !field_lt(b, a) {
        assert(a =~= b);
    }
}

/// Transitivity of [`field_lt`].
pub proof fn lemma_field_lt_trans(a: FieldV, b: FieldV, c: FieldV)
    requires
        field_lt(a, b),
        field_lt(b, c),
    ensures
        field_lt(a, c),
{
    if str_lt(a.name, b.name) && str_lt(b.name, c.name) {
        lemma_str_lt_trans(a.name, b.name, c.name);
    } else if a.name == b.name && b.name == c.name {
        if opt_str_lt(a.dtype, b.dtype) && opt_str_lt(b.dtype, c.dtype) {
            lemma_opt_str_lt_trans(a.dtype, b.dtype, c.dtype);
        } else if a.dtype == b.dtype && b.dtype == c.dtype {
            lemma_opt_str_lt_trans(a.default, b.default, c.default);
        }
    }
}

/// Asymmetry and connectedness of [`args_lt`] on one pair.
pub proof fn lemma_args_lt_conn(a: Seq<FieldV>, b: Seq<FieldV>)
    ensures
        args_lt(a, b) ==> !args_lt(b, a),
        !args_lt(a, b) && !args_lt(b, a) ==> a == b,
    decreases a.len(),
{
    if a.len() > 0 && b.len() > 0 {
        if a[0] == b[0] {
            lemma_args_lt_conn(a.drop_first(), b.drop_first());
            if !args_lt(a, b) && !args_lt(b, a) {
                assert(a.drop_first() == b.drop_first());
                assert(a.len() == b.len());
                assert forall|i: int| 0 <= i < a.len() implies a[i] == b[i] by {
                    if i > 0 {
                        assert(a[i] == a.drop_first()[i - 1]);
                        assert(b[i] == b.drop_first()[i - 1]);
                    }
                }
                assert(a =~= b);
            }
        } else {
            lemma_field_lt_conn(a[0], b[0]);
        }
    } else if a.len() == 0 && b.len() == 0 {
        assert(a =~= b);
    }
}

/// Transitivity of [`args_lt`].
pub proof fn lemma_args_lt_trans(a: Seq<FieldV>, b: Seq<FieldV>, c: Seq<FieldV>)
    requires
        args_lt(a, b),
        args_lt(b, c),
    ensures
        args_lt(a, c),
    decreases a.len(),
{
    if a.len() > 0 && b.len() > 0 && c.len() > 0 {
        if a[0] == b[0] && b[0] == c[0] {
            lemma_args_lt_trans(a.drop_first(), b.drop_first(), c.drop_first());
        } else if a[0] != b[0] && b[0] != c[0] {
            lemma_field_lt_trans(a[0], b[0], c[0]);
            lemma_field_lt_conn(a[0], b[0]);
            lemma_field_lt_conn(b[0], c[0]);
            lemma_field_lt_conn(a[0], c[0]);
        }
    }
}

/// Asymmetry and connectedness of [`method_lt`] on one pair.
pub proof fn lemma_method_lt_conn(a: MethodV, b: MethodV)
    ensures
        method_lt(a, b) ==> !method_lt(b, a),
        !method_lt(a, b) && !method_lt(b, a) ==> a == b,
{
    lemma_str_lt_conn(a.name, b.name);
    lemma_args_lt_conn(a.args, b.args);
    lemma_opt_str_lt_conn(a.returns, b.returns);
    if !method_lt(a, b) && !method_lt(b, a) {
        assert(a =~= b);
    }
}

/// Transitivity of [`method_lt`].
pub proof fn lemma_method_lt_trans(a: MethodV, b: MethodV, c: MethodV)
    requires
        method_lt(a, b),
        method_lt(b, c),
    ensures
        method_lt(a, c),
{
    if str_lt(a.name, b.name) && str_lt(b.name, c.name) {
        lemma_str_lt_trans(a.name, b.name, c.name);
    } else if a.name == b.name && b.name == c.name {
        if args_lt(a.args, b.args) && args_lt(b.args, c.args) {
            lemma_args_lt_trans(a.args, b.args, c.args);
        } else if a.args == b.args && b.args == c.args {
            lemma_opt_str_lt_trans(a.returns, b.returns, c.returns);
        }
    }
}

/// [`field_lt`] is a strict total order.
pub proof fn lemma_field_lt_strict_total()
    ensures
        strict_total_ordering(field_lt_f()),
{
    let r = field_lt_f();
    assert forall|x: FieldV| #[trigger] r(x, x) == false by {
        lemma_field_lt_conn(x, x);
    }
    assert forall|x: FieldV, y: FieldV| #[trigger] r(x, y) && #[trigger] r(y, x) implies x == y by {
        lemma_field_lt_conn(x, y);
    }
    assert forall|x: FieldV, y: FieldV, z: FieldV|
        #[trigger] r(x, y) && #[trigger] r(y, z) implies r(x, z) by {
        lemma_field_lt_trans(x, y, z);
    }
    assert forall|x: FieldV, y: FieldV| x != y implies #[trigger] r(x, y) || #[trigger] r(
        y,
        x,
    ) by {
        lemma_field_lt_conn(x, y);
    }
}

/// [`method_lt`] is a strict total order.
pub proof fn lemma_method_lt_strict_total()
    ensures
        strict_total_ordering(method_lt_f()),
{
    let r = method_lt_f();
    assert forall|x: MethodV| #[trigger] r(x, x) == false by {
        lemma_method_lt_conn(x, x);
    }
    assert forall|x: MethodV, y: MethodV| #[trigger] r(x, y) && #[trigger] r(y, x) implies x
        == y by {
        lemma_method_lt_conn(x, y);
    }
    assert forall|x: MethodV, y: MethodV, z: MethodV|
        #[trigger] r(x, y) && #[trigger] r(y, z) implies r(x, z) by {
        lemma_method_lt_trans(x, y, z);
    }
    assert forall|x: MethodV, y: MethodV| x != y implies #[trigger] r(x, y) || #[trigger] r(
        y,
        x,
    ) by {
        lemma_method_lt_conn(x, y);
    }
}

/// A member is public when its name does not start with an underscore.
pub open spec fn spec_is_public(name: Seq<char>) -> bool {
    name.len() == 0 || name[0] != '_'
}

/// Access classification shared by fields and methods.
pub trait Accessible {
    /// The name the classification looks at.
    spec fn acc_name(&self) -> Seq<char>;

    /// Whether the member is public by convention (no leading underscore).
    fn is_public(&self) -> (r: bool)
        ensures
            r == spec_is_public(self.acc_name()),
    ;
}

impl Accessible for Field {
    open spec fn acc_name(&self) -> Seq<char> {
        self.name@
    }

    fn is_public(&self) -> (r: bool)
        ensures
            r == spec_is_public(self.acc_name()),
    {
        str_is_public(&self.name)
    }
}

impl Accessible for Method {
    open spec fn acc_name(&self) -> Seq<char> {
        self.name@
    }

    fn is_public(&self) -> (r: bool)
        ensures
            r == spec_is_public(self.acc_name()),
    {
        str_is_public(&self.name)
    }
}

/// Whether a name lacks a leading underscore.
pub fn str_is_public(name: &String) -> (r: bool)
    ensures
        r == spec_is_public(name@),
{
    let s = name.as_str();
    let n = s.unicode_len();
    if n == 0 {
        true
    } else {
        s.get_char(0) != '_'
    }
}

} // verus!
