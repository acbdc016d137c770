//! Immediate dependency resolution: what a target needs that is not installed.
//!
//! Resolution is single-level and constraint-blind: only the first
//! alternative of each expression is considered, version constraints are
//! dropped, and the dependencies of dependencies are not computed.
use vstd::prelude::*;
use crate::cache::{
    all_entries, cache_lookup, controls_view, files_view, find_installed, first_named, Cache,
    IndexFile,
};
use crate::control::{opt_strings_view, ControlModel, DebPackage};
use crate::text::{chars_eq, chars_of, chars_view, split, split_chars, string_of, strings_view, trim, trim_range};

verus! {

/// What installing a target takes: the missing dependencies found in the
/// index, the suggested names (never installed), and the dependency names
/// that the index lacks.
#[derive(Debug, Clone, PartialEq, Eq)]
pub struct InstallPlan {
    pub target: DebPackage,
    pub deps: Vec<DebPackage>,
    pub suggested: Vec<String>,
    pub missing: Vec<String>,
}

/// Characters that end a package name inside a dependency expression.
pub open spec fn is_stop(c: char) -> bool {
    c == ' ' || c == '(' || c == ':' || c == '\t'
}

/// `k` is the position of the first stop character of `s`, or its length.
pub open spec fn is_name_end(s: Seq<char>, k: int) -> bool {
    &&& 0 <= k <= s.len()
    &&& (k == s.len() || is_stop(s[k]))
    &&& forall|j: int| 0 <= j < k ==> !is_stop(s[j])
}

/// The package name of a dependency expression: its first `|` alternative,
/// trimmed, up to the first stop character.
pub open spec fn dep_name(expr: Seq<char>) -> Seq<char> {
    let s = trim(split(expr, '|')[0]);
    s.take(choose|k: int| is_name_end(s, k))
}

/// The relationship list, or nothing when absent.
pub open spec fn list_or_empty(o: Option<Seq<Seq<char>>>) -> Seq<Seq<char>> {
    match o {
        Some(v) => v,
        None => Seq::empty(),
    }
}

/// Some record of `s` is named `n`.
pub open spec fn has_package(s: Seq<ControlModel>, n: Seq<char>) -> bool {
    exists|i: int| 0 <= i < s.len() && s[i].package == n
}

/// The dependency entries and the missing names that the expressions give,
/// in order of first occurrence.
pub open spec fn plan_deps(
    exprs: Seq<Seq<char>>,
    installed: Seq<ControlModel>,
    index: Seq<ControlModel>,
) -> (Seq<ControlModel>, Seq<Seq<char>>)
    decreases exprs.len(),
{
    if exprs.len() == 0 {
        (Seq::empty(), Seq::empty())
    } else {
        let (deps, missing) = plan_deps(exprs.drop_last(), installed, index);
        let n = dep_name(exprs.last());
        if n.len() == 0 || first_named(installed, n) is Some || has_package(deps, n)
            || missing.contains(n) {
            (deps, missing)
        } else {
            match first_named(index, n) {
                Some(e) => (deps.push(e), missing),
                None => (deps, missing.push(n)),
            }
        }
    }
}

/// The dependency expressions of a target: `Depends`, then `Pre-Depends`.
pub open spec fn dep_exprs(target: ControlModel) -> Seq<Seq<char>> {
    list_or_empty(target.depends) + list_or_empty(target.pre_depends)
}

/// The package name of a dependency expression.
pub fn dependency_name(expr: &Vec<char>) -> (r: Vec<char>)
    ensures
        r@ == dep_name(expr@),
{
    let alts = split_chars(expr, '|');
    proof {
        crate::text::lemma_split_nonempty(expr@, '|');
    }
    let first = &alts[0];
    assert(chars_view(alts@)[0] == first@);
    let s = trim_range(first, 0, first.len());
    assert(first@.subrange(0, first@.len() as int) =~= first@);
    let mut k: usize = 0;
    while k < s.len() && !(s[k] == ' ' || s[k] == '(' || s[k] == ':' || s[k] == '\t')
        invariant
            k <= s@.len(),
            forall|j: int| 0 <= j < k ==> !is_stop(s@[j]),
        decreases s@.len() - k,
    {
        k = k + 1;
    }
    assert(is_name_end(s@, k as int));
    assert forall|k2: int| is_name_end(s@, k2) implies k2 == k by {
        if k2 < k {
            assert(!is_stop(s@[k2]));
        } else if k2 > k {
            assert(!is_stop(s@[k as int]));
        }
    }
    trim_range_prefix(&s, k)
}

/// `v[..k]` as a new vector.
fn trim_range_prefix(v: &Vec<char>, k: usize) -> (r: Vec<char>)
    requires
        k <= v@.len(),
    ensures
        r@ == v@.take(k as int),
{
    let mut r: Vec<char> = Vec::new();
    let mut i: usize = 0;
    while i < k
        invariant
            i <= k <= v@.len(),
            r@ == v@.take(i as int),
        decreases k - i,
    {
        r.push(v[i]);
        assert(r@ =~= v@.take(i + 1));
        i = i + 1;
    }
    r
}

fn has_package_named(s: &Vec<DebPackage>, n: &Vec<char>) -> (r: bool)
    ensures
        r == has_package(controls_view(s@), n@),
{
    let mut i: usize = 0;
    while i < s.len()
        invariant
            i <= s@.len(),
            forall|j: int| 0 <= j < i ==> s@[j].control@.package != n@,
        decreases s@.len() - i,
    {
        if chars_eq(&chars_of(s[i].control.package.as_str()), n) {
            assert(controls_view(s@)[i as int].package == n@);
            return true;
        }
        i = i + 1;
    }
    false
}

fn has_string(s: &Vec<String>, n: &Vec<char>) -> (r: bool)
    ensures
        r == strings_view(s@).contains(n@),
{
    let mut i: usize = 0;
    while i < s.len()
        invariant
            i <= s@.len(),
            forall|j: int| 0 <= j < i ==> s@[j]@ != n@,
        decreases s@.len() - i,
    {
        if chars_eq(&chars_of(s[i].as_str()), n) {
            assert(strings_view(s@)[i as int] == n@);
            return true;
        }
        i = i + 1;
    }
    false
}

/// A copy of an optional list's items, or nothing when absent.
fn list_items(o: &Option<Vec<String>>) -> (r: Vec<String>)
    ensures
        strings_view(r@) == list_or_empty(opt_strings_view(*o)),
{
    match crate::control::clone_list(o) {
        Some(v) => v,
        None => {
            let v: Vec<String> = Vec::new();
            assert(strings_view(v@) =~= Seq::empty());
            v
        },
    }
}

/// The install plan of `target`: each dependency expression of `Depends`
/// then `Pre-Depends` that names a package neither installed nor already
/// planned is looked up in the index; found ones are planned, the others
/// reported missing. `Suggests` is copied as it is.
pub fn resolve(
    target: &DebPackage,
    installed: &Vec<DebPackage>,
    cache: &Cache,
    files: &Vec<IndexFile>,
) -> (r: InstallPlan)
    ensures
        r.target.control@ == target.control@,
        r.target.kind == target.kind,
        (controls_view(r.deps@), strings_view(r.missing@)) == plan_deps(
            dep_exprs(target.control@),
            controls_view(installed@),
            all_entries(files_view(files@)),
        ),
        strings_view(r.suggested@) == list_or_empty(target.control@.suggests),
{
    let mut exprs = list_items(&target.control.depends);
    let mut pre = list_items(&target.control.pre_depends);
    let ghost e1 = exprs@;
    let ghost e2 = pre@;
    exprs.append(&mut pre);
    let ghost all_exprs = strings_view(exprs@);
    assert(all_exprs =~= dep_exprs(target.control@)) by {
        assert(exprs@ == e1 + e2);
        assert(strings_view(e1 + e2) =~= strings_view(e1) + strings_view(e2));
    }
    let ghost inst = controls_view(installed@);
    let ghost index = all_entries(files_view(files@));
    let mut deps: Vec<DebPackage> = Vec::new();
    let mut missing: Vec<String> = Vec::new();
    let mut i: usize = 0;
    while i < exprs.len()
        invariant
            i <= exprs@.len(),
            all_exprs == strings_view(exprs@),
            inst == controls_view(installed@),
            index == all_entries(files_view(files@)),
            (controls_view(deps@), strings_view(missing@)) == plan_deps(all_exprs.take(i as int), inst, index),
        decreases exprs@.len() - i,
    {
        let ghost t = all_exprs.take(i + 1);
        assert(t.drop_last() =~= all_exprs.take(i as int));
        assert(t.last() == exprs@[i as int]@);
        let n = dependency_name(&chars_of(exprs[i].as_str()));
        let ns = string_of(&n);
        if n.len() == 0 || find_installed(installed, ns.as_str()).is_some() || has_package_named(&deps, &n)
            || has_string(&missing, &n) {
        } else {
            match cache_lookup(cache, files, ns.as_str()) {
                Some(e) => {
                    let ghost before = deps@;
                    let ghost ev = e.control@;
                    deps.push(e);
                    assert(controls_view(deps@) =~= controls_view(before).push(ev));
                },
                None => {
                    let ghost before = missing@;
                    missing.push(ns);
                    assert(strings_view(missing@) =~= strings_view(before).push(n@));
                },
            }
        }
        i = i + 1;
    }
    assert(all_exprs.take(exprs@.len() as int) =~= all_exprs);
    InstallPlan {
        target: target.clone_package(),
        deps,
        suggested: list_items(&target.control.suggests),
        missing,
    }
}

} // verus!
