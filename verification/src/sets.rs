//! Executable comparison in the canonical order, and the set containers
//! built on it.  A set is a vector kept sorted and duplicate-free; its
//! contents therefore determine it uniquely, which is what makes every
//! downstream rendering independent of insertion order.
use vstd::prelude::*;

use vstd::relations::{sorted_by, strict_total_ordering};

use crate::members::{
    args_lt, field_lt, field_lt_f, lemma_args_lt_conn, lemma_field_lt_conn,
    lemma_field_lt_strict_total, lemma_method_lt_strict_total, method_lt, method_lt_f, Field,
    FieldV, Method, MethodV,
};
use crate::order::{
    lemma_opt_str_lt_conn, lemma_sorted_ins, lemma_sorted_ins_split, lemma_str_lt_conn,
    lemma_str_lt_strict_total, opt_str_lt, sorted_ins, str_lt, str_lt_f,
};

verus! {

/// Whether `a` precedes `b` in the canonical string order.
pub fn str_lt_exec(a: &str, b: &str) -> (r: bool)
    ensures
        r == str_lt(a@, b@),
{
    let alen = a.unicode_len();
    let blen = b.unicode_len();
    let mut i: usize = 0;
    proof {
        assert(a@.skip(0) =~= a@);
        assert(b@.skip(0) =~= b@);
    }
    while i < alen && i < blen
        invariant
            i <= alen,
            i <= blen,
            alen == a@.len(),
            blen == b@.len(),
            str_lt(a@, b@) == str_lt(a@.skip(i as int), b@.skip(i as int)),
        decreases alen - i,
    {
        let ca = a.get_char(i);
        let cb = b.get_char(i);
        proof {
            assert(a@.skip(i as int)[0] == a@[i as int]);
            assert(b@.skip(i as int)[0] == b@[i as int]);
        }
        if ca != cb {
            return (ca as u32) < (cb as u32);
        }
        proof {
            assert(a@.skip(i as int).drop_first() =~= a@.skip(i + 1));
            assert(b@.skip(i as int).drop_first() =~= b@.skip(i + 1));
        }
        i = i + 1;
    }
    proof {
        if i >= alen {
            assert(a@.skip(i as int).len() == 0);
        } else {
            assert(b@.skip(i as int).len() == 0);
        }
    }
    alen < blen
}

/// Whether two strings are equal, decided through the order.
pub fn str_eq_exec(a: &str, b: &str) -> (r: bool)
    ensures
        r == (a@ == b@),
{
    proof {
        lemma_str_lt_conn(a@, b@);
    }
    !str_lt_exec(a, b) && !str_lt_exec(b, a)
}

/// Whether `a` precedes `b` as optional strings (absent first).
pub fn opt_str_lt_exec(a: &Option<String>, b: &Option<String>) -> (r: bool)
    ensures
        r == opt_str_lt(a.deep_view(), b.deep_view()),
{
    match (a, b) {
        (Option::None, Option::Some(_)) => true,
        (Option::Some(x), Option::Some(y)) => str_lt_exec(x.as_str(), y.as_str()),
        _ => false,
    }
}

/// Whether `a` precedes `b` in the canonical field order.
pub fn field_lt_exec(a: &Field, b: &Field) -> (r: bool)
    ensures
        r == field_lt(a@, b@),
{
    proof {
        lemma_str_lt_conn(a.name@, b.name@);
        lemma_opt_str_lt_conn(a.dtype.deep_view(), b.dtype.deep_view());
    }
    if str_lt_exec(a.name.as_str(), b.name.as_str()) {
        true
    } else if str_lt_exec(b.name.as_str(), a.name.as_str()) {
        false
    } else if opt_str_lt_exec(&a.dtype, &b.dtype) {
        true
    } else if opt_str_lt_exec(&b.dtype, &a.dtype) {
        false
    } else {
        opt_str_lt_exec(&a.default, &b.default)
    }
}

/// Whether two fields are equal, decided through the order.
pub fn field_eq_exec(a: &Field, b: &Field) -> (r: bool)
    ensures
        r == (a@ == b@),
{
    proof {
        lemma_field_lt_conn(a@, b@);
    }
    !field_lt_exec(a, b) && !field_lt_exec(b, a)
}

/// Whether `a` precedes `b` as parameter lists.
pub fn args_lt_exec(a: &Vec<Field>, b: &Vec<Field>) -> (r: bool)
    ensures
        r == args_lt(a.deep_view(), b.deep_view()),
{
    let av = Ghost(a.deep_view());
    let bv = Ghost(b.deep_view());
    let mut i: usize = 0;
    proof {
        assert(av@.skip(0) =~= av@);
        assert(bv@.skip(0) =~= bv@);
    }
    while i < a.len() && i < b.len()
        invariant
            i <= a.len(),
            i <= b.len(),
            av@ == a.deep_view(),
            bv@ == b.deep_view(),
            av@.len() == a.len(),
            bv@.len() == b.len(),
            args_lt(av@, bv@) == args_lt(av@.skip(i as int), bv@.skip(i as int)),
        decreases a.len() - i,
    {
        proof {
            assert(av@.skip(i as int)[0] == av@[i as int]);
            assert(bv@.skip(i as int)[0] == bv@[i as int]);
        }
        if !field_eq_exec(&a[i], &b[i]) {
            return field_lt_exec(&a[i], &b[i]);
        }
        proof {
            assert(av@.skip(i as int).drop_first() =~= av@.skip(i + 1));
            assert(bv@.skip(i as int).drop_first() =~= bv@.skip(i + 1));
        }
        i = i + 1;
    }
    proof {
        if i >= a.len() {
            assert(av@.skip(i as int).len() == 0);
        } else {
            assert(bv@.skip(i as int).len() == 0);
        }
    }
    a.len() < b.len()
}

/// Whether `a` precedes `b` in the canonical method order.
pub fn method_lt_exec(a: &Method, b: &Method) -> (r: bool)
    ensures
        r == method_lt(a@, b@),
{
    proof {
        lemma_str_lt_conn(a.name@, b.name@);
        lemma_args_lt_conn(a.args.deep_view(), b.args.deep_view());
    }
    if str_lt_exec(a.name.as_str(), b.name.as_str()) {
        true
    } else if str_lt_exec(b.name.as_str(), a.name.as_str()) {
        false
    } else if args_lt_exec(&a.args, &b.args) {
        true
    } else if args_lt_exec(&b.args, &a.args) {
        false
    } else {
        opt_str_lt_exec(&a.returns, &b.returns)
    }
}

/// Whether two methods are equal, decided through the order.
pub fn method_eq_exec(a: &Method, b: &Method) -> (r: bool)
    ensures
        r == (a@ == b@),
{
    proof {
        crate::members::lemma_method_lt_conn(a@, b@);
    }
    !method_lt_exec(a, b) && !method_lt_exec(b, a)
}

/// A set of strings: a vector kept sorted and duplicate-free in the
/// canonical string order.
#[derive(Debug, PartialEq, Eq)]
pub struct StringSet {
    pub items: Vec<String>,
}

impl View for StringSet {
    type V = Seq<Seq<char>>;

    open spec fn view(&self) -> Seq<Seq<char>> {
        self.items.deep_view()
    }
}

impl StringSet {
    /// The container invariant: sorted in the canonical order, hence
    /// duplicate-free.
    pub open spec fn wf(&self) -> bool {
        sorted_by(self@, str_lt_f())
    }

    /// The empty set.
    pub fn new() -> (r: StringSet)
        ensures
            r@ =~= Seq::<Seq<char>>::empty(),
            r.wf(),
    {
        StringSet { items: Vec::new() }
    }

    /// How many strings the set holds.
    pub fn len(&self) -> (r: usize)
        ensures
            r == self@.len(),
    {
        self.items.len()
    }

    /// Sorted insertion; present values are not duplicated.
    pub fn insert(&mut self, x: String)
        requires
            old(self).wf(),
        ensures
            final(self)@ == sorted_ins(old(self)@, x@, str_lt_f()),
            final(self).wf(),
            final(self)@.to_set() == old(self)@.to_set().insert(x@),
    {
        let ghost s = self@;
        let ghost lt = str_lt_f();
        proof {
            lemma_str_lt_strict_total();
            lemma_sorted_ins(s, x@, lt);
        }
        let mut i: usize = 0;
        while i < self.items.len() && str_lt_exec(self.items[i].as_str(), x.as_str())
            invariant
                i <= self.items.len(),
                self@ == s,
                self.wf(),
                lt == str_lt_f(),
                forall|k: int| 0 <= k < i ==> #[trigger] lt(s[k], x@),
                strict_total_ordering(lt),
            decreases self.items.len() - i,
        {
            proof {
                assert(self.items[i as int].deep_view() == s[i as int]);
                assert(lt(s[i as int], x@));
            }
            i = i + 1;
        }
        proof {
            lemma_sorted_ins_split(s, x@, lt, i as int);
        }
        if i < self.items.len() {
            proof {
                assert(self.items[i as int].deep_view() == s[i as int]);
                assert(s.subrange(i as int, s.len() as int)[0] == s[i as int]);
                lemma_str_lt_conn(x@, s[i as int]);
            }
            if str_eq_exec(self.items[i].as_str(), x.as_str()) {
                proof {
                    assert(sorted_ins(s, x@, lt) =~= s.subrange(0, i as int) + s.subrange(
                        i as int,
                        s.len() as int,
                    ));
                    assert(s =~= s.subrange(0, i as int) + s.subrange(i as int, s.len() as int));
                }
                return ;
            }
            proof {
                assert(lt(x@, s[i as int]));
                assert(sorted_ins(s.subrange(i as int, s.len() as int), x@, lt) == seq![x@]
                    + s.subrange(i as int, s.len() as int));
            }
            self.items.insert(i, x);
            proof {
                assert(self@ =~= s.subrange(0, i as int) + (seq![x@] + s.subrange(
                    i as int,
                    s.len() as int,
                )));
            }
        } else {
            proof {
                assert(s.subrange(i as int, s.len() as int).len() == 0);
                assert(sorted_ins(s.subrange(i as int, s.len() as int), x@, lt) =~= seq![x@]);
                assert(s.subrange(0, i as int) =~= s);
            }
            self.items.push(x);
            proof {
                assert(self@ =~= s + seq![x@]);
                assert(sorted_ins(s, x@, lt) =~= s + seq![x@]);
            }
        }
    }
}

/// A set of fields: a vector kept sorted and duplicate-free in the
/// canonical field order.
#[derive(Debug, PartialEq, Eq)]
pub struct FieldSet {
    pub items: Vec<Field>,
}

impl View for FieldSet {
    type V = Seq<FieldV>;

    open spec fn view(&self) -> Seq<FieldV> {
        self.items.deep_view()
    }
}

impl FieldSet {
    /// The container invariant.
    pub open spec fn wf(&self) -> bool {
        sorted_by(self@, field_lt_f())
    }

    /// The empty set.
    pub fn new() -> (r: FieldSet)
        ensures
            r@ =~= Seq::<FieldV>::empty(),
            r.wf(),
    {
        FieldSet { items: Vec::new() }
    }

    /// How many fields the set holds.
    pub fn len(&self) -> (r: usize)
        ensures
            r == self@.len(),
    {
        self.items.len()
    }

    /// Sorted insertion; present values are not duplicated.
    pub fn insert(&mut self, x: Field)
        requires
            old(self).wf(),
        ensures
            final(self)@ == sorted_ins(old(self)@, x@, field_lt_f()),
            final(self).wf(),
            final(self)@.to_set() == old(self)@.to_set().insert(x@),
    {
        let ghost s = self@;
        let ghost lt = field_lt_f();
        proof {
            lemma_field_lt_strict_total();
            lemma_sorted_ins(s, x@, lt);
        }
        let mut i: usize = 0;
        while i < self.items.len() && field_lt_exec(&self.items[i], &x)
            invariant
                i <= self.items.len(),
                self@ == s,
                self.wf(),
                lt == field_lt_f(),
                forall|k: int| 0 <= k < i ==> #[trigger] lt(s[k], x@),
                strict_total_ordering(lt),
            decreases self.items.len() - i,
        {
            proof {
                assert(self.items[i as int].deep_view() == s[i as int]);
                assert(lt(s[i as int], x@));
            }
            i = i + 1;
        }
        proof {
            lemma_sorted_ins_split(s, x@, lt, i as int);
        }
        if i < self.items.len() {
            proof {
                assert(self.items[i as int].deep_view() == s[i as int]);
                assert(s.subrange(i as int, s.len() as int)[0] == s[i as int]);
                lemma_field_lt_conn(x@, s[i as int]);
            }
            if field_eq_exec(&self.items[i], &x) {
                proof {
                    assert(sorted_ins(s, x@, lt) =~= s.subrange(0, i as int) + s.subrange(
                        i as int,
                        s.len() as int,
                    ));
                    assert(s =~= s.subrange(0, i as int) + s.subrange(i as int, s.len() as int));
                }
                return ;
            }
            proof {
                assert(lt(x@, s[i as int]));
                assert(sorted_ins(s.subrange(i as int, s.len() as int), x@, lt) == seq![x@]
                    + s.subrange(i as int, s.len() as int));
            }
            self.items.insert(i, x);
            proof {
                assert(self@ =~= s.subrange(0, i as int) + (seq![x@] + s.subrange(
                    i as int,
                    s.len() as int,
                )));
            }
        } else {
            proof {
                assert(s.subrange(i as int, s.len() as int).len() == 0);
                assert(sorted_ins(s.subrange(i as int, s.len() as int), x@, lt) =~= seq![x@]);
                assert(s.subrange(0, i as int) =~= s);
            }
            self.items.push(x);
            proof {
                assert(self@ =~= s + seq![x@]);
                assert(sorted_ins(s, x@, lt) =~= s + seq![x@]);
            }
        }
    }
}

/// A set of methods: a vector kept sorted and duplicate-free in the
/// canonical method order.
#[derive(Debug, PartialEq, Eq)]
pub struct MethodSet {
    pub items: Vec<Method>,
}

impl View for MethodSet {
    type V = Seq<MethodV>;

    open spec fn view(&self) -> Seq<MethodV> {
        self.items.deep_view()
    }
}

impl MethodSet {
    /// The container invariant.
    pub open spec fn wf(&self) -> bool {
        sorted_by(self@, method_lt_f())
    }

    /// The empty set.
    pub fn new() -> (r: MethodSet)
        ensures
            r@ =~= Seq::<MethodV>::empty(),
            r.wf(),
    {
        MethodSet { items: Vec::new() }
    }

    /// How many methods the set holds.
    pub fn len(&self) -> (r: usize)
        ensures
            r == self@.len(),
    {
        self.items.len()
    }

    /// Sorted insertion; present values are not duplicated.
    pub fn insert(&mut self, x: Method)
        requires
            old(self).wf(),
        ensures
            final(self)@ == sorted_ins(old(self)@, x@, method_lt_f()),
            final(self).wf(),
            final(self)@.to_set() == old(self)@.to_set().insert(x@),
    {
        let ghost s = self@;
        let ghost lt = method_lt_f();
        proof {
            lemma_method_lt_strict_total();
            lemma_sorted_ins(s, x@, lt);
        }
        let mut i: usize = 0;
        while i < self.items.len() && method_lt_exec(&self.items[i], &x)
            invariant
                i <= self.items.len(),
                self@ == s,
                self.wf(),
                lt == method_lt_f(),
                forall|k: int| 0 <= k < i ==> #[trigger] lt(s[k], x@),
                strict_total_ordering(lt),
            decreases self.items.len() - i,
        {
            proof {
                assert(self.items[i as int].deep_view() == s[i as int]);
                assert(lt(s[i as int], x@));
            }
            i = i + 1;
        }
        proof {
            lemma_sorted_ins_split(s, x@, lt, i as int);
        }
        if i < self.items.len() {
            proof {
                assert(self.items[i as int].deep_view() == s[i as int]);
                assert(s.subrange(i as int, s.len() as int)[0] == s[i as int]);
                crate::members::lemma_method_lt_conn(x@, s[i as int]);
            }
            if method_eq_exec(&self.items[i], &x) {
                proof {
                    assert(sorted_ins(s, x@, lt) =~= s.subrange(0, i as int) + s.subrange(
                        i as int,
                        s.len() as int,
                    ));
                    assert(s =~= s.subrange(0, i as int) + s.subrange(i as int, s.len() as int));
                }
                return ;
            }
            proof {
                assert(lt(x@, s[i as int]));
                assert(sorted_ins(s.subrange(i as int, s.len() as int), x@, lt) == seq![x@]
                    + s.subrange(i as int, s.len() as int));
            }
            self.items.insert(i, x);
            proof {
                assert(self@ =~= s.subrange(0, i as int) + (seq![x@] + s.subrange(
                    i as int,
                    s.len() as int,
                )));
            }
        } else {
            proof {
                assert(s.subrange(i as int, s.len() as int).len() == 0);
                assert(sorted_ins(s.subrange(i as int, s.len() as int), x@, lt) =~= seq![x@]);
                assert(s.subrange(0, i as int) =~= s);
            }
            self.items.push(x);
            proof {
                assert(self@ =~= s + seq![x@]);
                assert(sorted_ins(s, x@, lt) =~= s + seq![x@]);
            }
        }
    }
}

} // verus!
