//! Extracts a structural model of classes from a parsed Python syntax tree
//! and renders it as deterministic class-diagram markup.
//!
//! A host parser turns source text into the plain tree of [`ast`]; the
//! scanner in [`python`] walks its top-level statements and produces one
//! class record (or one typed failure) per class definition; glob-style
//! exclusion patterns drop whole records; the renderer in [`mermaid`] turns
//! each surviving record into a diagram block, and this module joins the
//! blocks.
use vstd::prelude::*;

pub mod ast;
pub mod errors;
pub mod laws;
pub mod members;
pub mod mermaid;
pub mod order;
pub mod printer;
pub mod python;
pub mod sets;

use crate::ast::Stmt;
use crate::mermaid::{spec_print, spec_to_mermaid, MermaidAdapter};
use crate::printer::spec_join;
use crate::python::{class_result_view, spec_classdefs, spec_extract, ClassV, PyClassInfo};

verus! {

/// Whether the glob pattern matches the text, exactly as the `glob`
/// crate's matcher decides it; a pattern that does not compile matches
/// nothing.
pub uninterp spec fn glob_matches(pattern: Seq<char>, text: Seq<char>) -> bool;

/// Relies on glob::Pattern::new and glob::Pattern::matches: within one
/// build, compiling a pattern and matching a string against it depend on
/// the two strings alone (the matcher consults the target's path-separator
/// rules, so two builds for different targets may disagree on pairs that
/// hold separators).  A pattern the crate refuses to compile matches
/// nothing.
#[verifier::external_body]
fn glob_match(pattern: &str, text: &str) -> (r: bool)
    ensures
        r == glob_matches(pattern@, text@),
{
    match glob::Pattern::new(pattern) {
        Ok(p) => p.matches(text),
        Err(_) => false,
    }
}

/// Whether any pattern in the list matches the text.
pub open spec fn spec_matches_any(patterns: Seq<Seq<char>>, text: Seq<char>) -> bool {
    exists|i: int| 0 <= i < patterns.len() && glob_matches(patterns[i], text)
}

/// Whether any pattern matches the text.
fn matches_any(patterns: &Vec<String>, text: &String) -> (r: bool)
    ensures
        r == spec_matches_any(patterns.deep_view(), text@),
{
    let ghost ps = patterns.deep_view();
    let mut i: usize = 0;
    while i < patterns.len()
        invariant
            i <= patterns.len(),
            ps == patterns.deep_view(),
            ps.len() == patterns.len(),
            forall|k: int| 0 <= k < i ==> !glob_matches(ps[k], text@),
        decreases patterns.len() - i,
    {
        proof {
            assert(patterns[i as int].deep_view() == ps[i as int]);
        }
        if glob_match(patterns[i].as_str(), text.as_str()) {
            return true;
        }
        i = i + 1;
    }
    false
}

/// Whether this class is dropped by the exclusion patterns: a
/// name-exclusion pattern matching its own name, or a base-exclusion
/// pattern matching its own name or any of its parents.
pub open spec fn spec_excluded(c: ClassV, names: Seq<Seq<char>>, bases: Seq<Seq<char>>) -> bool {
    ||| (exists|i: int|
        0 <= i < bases.len() && (glob_matches(bases[i], c.name) || exists|j: int|
            0 <= j < c.parents.len() && glob_matches(bases[i], c.parents[j])))
    ||| spec_matches_any(names, c.name)
}

/// Whether the exclusion patterns drop this class.
fn excluded(c: &PyClassInfo, exclude_names: &Vec<String>, exclude_bases: &Vec<String>) -> (r: bool)
    ensures
        r == spec_excluded(c@, exclude_names.deep_view(), exclude_bases.deep_view()),
{
    let ghost bs = exclude_bases.deep_view();
    let mut i: usize = 0;
    while i < exclude_bases.len()
        invariant
            i <= exclude_bases.len(),
            bs == exclude_bases.deep_view(),
            bs.len() == exclude_bases.len(),
            forall|k: int|
                0 <= k < i ==> !glob_matches(bs[k], c@.name) && !(exists|j: int|
                    0 <= j < c@.parents.len() && glob_matches(bs[k], c@.parents[j])),
        decreases exclude_bases.len() - i,
    {
        proof {
            assert(exclude_bases[i as int].deep_view() == bs[i as int]);
        }
        if glob_match(exclude_bases[i].as_str(), c.name.as_str()) {
            return true;
        }
        let mut j: usize = 0;
        while j < c.parents.items.len()
            invariant
                j <= c.parents.items.len(),
                bs == exclude_bases.deep_view(),
                bs.len() == exclude_bases.len(),
                i < exclude_bases.len(),
                forall|k: int| 0 <= k < j ==> !glob_matches(bs[i as int], c@.parents[k]),
            decreases c.parents.items.len() - j,
        {
            proof {
                assert(c.parents.items[j as int].deep_view() == c@.parents[j as int]);
            }
            if glob_match(exclude_bases[i].as_str(), c.parents.items[j].as_str()) {
                proof {
                    assert(glob_matches(bs[i as int], c@.parents[j as int]));
                    assert(exists|jj: int|
                        0 <= jj < c@.parents.len() && glob_matches(bs[i as int], c@.parents[jj]));
                }
                return true;
            }
            j = j + 1;
        }
        i = i + 1;
    }
    matches_any(exclude_names, &c.name)
}

/// The diagram blocks of the classes that extract successfully and
/// survive the exclusion patterns, in source order.
pub open spec fn spec_kept_blocks(
    defs: Seq<crate::ast::ClassDef>,
    names: Seq<Seq<char>>,
    bases: Seq<Seq<char>>,
    eol: Seq<char>,
) -> Seq<Seq<char>>
    decreases defs.len(),
{
    if defs.len() == 0 {
        Seq::empty()
    } else {
        spec_kept_blocks(defs.drop_last(), names, bases, eol) + match spec_extract(defs.last()) {
            Result::Ok(cv) => if !spec_excluded(cv, names, bases) {
                seq![spec_print(spec_to_mermaid(cv), eol)]
            } else {
                Seq::empty()
            },
            Result::Err(_) => Seq::empty(),
        }
    }
}

/// What the whole pipeline yields on one module: the surviving blocks
/// joined by one blank line, or nothing when no text results.
pub open spec fn spec_python_to_mermaid(
    stmts: Seq<Stmt>,
    names: Seq<Seq<char>>,
    bases: Seq<Seq<char>>,
    eol: Seq<char>,
) -> Option<Seq<char>> {
    let joined = spec_join(spec_kept_blocks(spec_classdefs(stmts), names, bases, eol), eol + eol);
    if joined.len() == 0 {
        Option::None
    } else {
        Option::Some(joined)
    }
}

/// The diagram text of one parsed module: every top-level class is
/// extracted, classes that fail extraction or match an exclusion pattern
/// are dropped silently, and the surviving blocks are joined with a blank
/// line between them.  No text at all yields nothing.
pub fn python_to_mermaid(
    stmts: &Vec<Stmt>,
    exclude_names: &Vec<String>,
    exclude_bases: &Vec<String>,
    eol: &str,
) -> (r: Option<String>)
    ensures
        r.deep_view() == spec_python_to_mermaid(
            stmts@,
            exclude_names.deep_view(),
            exclude_bases.deep_view(),
            eol@,
        ),
{
    let ghost names = exclude_names.deep_view();
    let ghost bases = exclude_bases.deep_view();
    let ghost defs = spec_classdefs(stmts@);
    let mut results = PyClassInfo::from_module(stmts);
    let ghost orig = results@;
    let mut blocks: Vec<String> = Vec::new();
    let ghost mut consumed: int = 0;
    proof {
        assert(results@ =~= orig.skip(0));
        assert(defs.take(0) =~= Seq::<crate::ast::ClassDef>::empty());
        assert(blocks.deep_view() =~= spec_kept_blocks(defs.take(0), names, bases, eol@));
    }
    while results.len() > 0
        invariant
            0 <= consumed <= orig.len(),
            orig.len() == defs.len(),
            names == exclude_names.deep_view(),
            bases == exclude_bases.deep_view(),
            defs == spec_classdefs(stmts@),
            results@ == orig.skip(consumed),
            forall|k: int|
                0 <= k < orig.len() ==> #[trigger] class_result_view(orig[k]) == spec_extract(
                    defs[k],
                ),
            blocks.deep_view() == spec_kept_blocks(defs.take(consumed), names, bases, eol@),
        decreases results.len(),
    {
        let ghost old_items = results@;
        let res = results.remove(0);
        proof {
            assert(consumed < orig.len());
            assert(res == orig.skip(consumed)[0]);
            assert(orig.skip(consumed)[0] == orig[consumed]);
            assert(results@ =~= old_items.subrange(1, old_items.len() as int));
            assert forall|t: int| 0 <= t < results@.len() implies results@[t] == orig.skip(
                consumed + 1,
            )[t] by {
                assert(results@[t] == old_items[t + 1]);
                assert(old_items[t + 1] == orig.skip(consumed)[t + 1]);
                assert(orig.skip(consumed)[t + 1] == orig[consumed + 1 + t]);
                assert(orig.skip(consumed + 1)[t] == orig[consumed + 1 + t]);
            }
            assert(results@ =~= orig.skip(consumed + 1));
            assert(class_result_view(res) == spec_extract(defs[consumed]));
        }
        let ghost before = blocks.deep_view();
        match res {
            Result::Ok(c) => {
                if !excluded(&c, exclude_names, exclude_bases) {
                    let block = c.to_mermaid().print(eol);
                    let ghost bv = block@;
                    blocks.push(block);
                    proof {
                        assert(blocks.deep_view() =~= before.push(bv));
                    }
                }
            },
            Result::Err(_) => {},
        }
        proof {
            assert(defs.take(consumed + 1).drop_last() =~= defs.take(consumed));
            assert(defs.take(consumed + 1).last() == defs[consumed]);
            assert(blocks.deep_view() =~= spec_kept_blocks(
                defs.take(consumed + 1),
                names,
                bases,
                eol@,
            ));
            consumed = consumed + 1;
        }
    }
    proof {
        assert(consumed == orig.len());
        assert(defs.take(defs.len() as int) =~= defs);
    }
    let mut sep = String::from_str(eol);
    sep.append(eol);
    let joined = crate::printer::join_parts(&blocks, sep.as_str());
    if joined.as_str().unicode_len() == 0 {
        Option::None
    } else {
        Option::Some(joined)
    }
}

} // verus!
