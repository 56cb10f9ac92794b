//! Decides which source paths and namespaces lie outside the analysed model:
//! system headers, Bazel external dependencies, and the standard library's
//! namespaces.
use vstd::prelude::*;

use crate::text::{
    chars_eq, chars_of, contains, contains_exec, first_segment, first_segment_exec, separator_index,
    starts_with, starts_with_exec,
};

verus! {

/// A path in a system header location: under `/usr/include`,
/// `/usr/local/include` or `/opt/`, or anywhere below a `/gcc/` directory.
pub open spec fn system_header_path(p: Seq<char>) -> bool {
    ||| starts_with(p, "/usr/include"@)
    ||| starts_with(p, "/usr/local/include"@)
    ||| starts_with(p, "/opt/"@)
    ||| contains(p, "/gcc/"@)
}

/// A path of a Bazel external dependency.
pub open spec fn external_dependency_path(p: Seq<char>) -> bool {
    ||| contains(p, "/external/"@)
    ||| contains(p, "external/"@)
    ||| contains(p, "_virtual_includes/"@)
    ||| (contains(p, "bazel-out/"@) && contains(p, "/external/"@))
}

/// A path of a header that lies outside the parsed model.
pub open spec fn external_or_system_path(p: Seq<char>) -> bool {
    system_header_path(p) || external_dependency_path(p)
}

/// A namespace whose top-level component is `std` or `__gnu_cxx`.
pub open spec fn excluded_namespace(ns: Option<Seq<char>>) -> bool {
    match ns {
        None => false,
        Some(n) => first_segment(n) == "std"@ || first_segment(n) == "__gnu_cxx"@,
    }
}

/// The view of an optional string slice.
pub open spec fn opt_str_view(s: Option<&str>) -> Option<Seq<char>> {
    match s {
        None => None,
        Some(t) => Some(t@),
    }
}

/// Returns whether a path belongs to a system header location.
pub fn is_system_header_path(path: &str) -> (r: bool)
    ensures
        r == system_header_path(path@),
{
    let p = chars_of(path);
    starts_with_exec(&p, &chars_of("/usr/include")) || starts_with_exec(
        &p,
        &chars_of("/usr/local/include"),
    ) || starts_with_exec(&p, &chars_of("/opt/")) || contains_exec(&p, &chars_of("/gcc/"))
}

/// Returns whether a path belongs to a Bazel external dependency.
pub fn is_external_dependency_path(path: &str) -> (r: bool)
    ensures
        r == external_dependency_path(path@),
{
    let p = chars_of(path);
    contains_exec(&p, &chars_of("/external/")) || contains_exec(&p, &chars_of("external/"))
        || contains_exec(&p, &chars_of("_virtual_includes/")) || (contains_exec(
        &p,
        &chars_of("bazel-out/"),
    ) && contains_exec(&p, &chars_of("/external/")))
}

/// Returns whether a path belongs to a header that is outside the parsed model.
pub fn is_external_or_system_path(path: &str) -> (r: bool)
    ensures
        r == external_or_system_path(path@),
{
    is_system_header_path(path) || is_external_dependency_path(path)
}

/// Returns whether an entity namespace should be excluded from the parsed model
/// even when the source file is part of the workspace.
pub fn is_excluded_namespace(namespace: Option<&str>) -> (r: bool)
    ensures
        r == excluded_namespace(opt_str_view(namespace)),
{
    match namespace {
        None => false,
        Some(ns) => {
            let top = first_segment_exec(&chars_of(ns));
            chars_eq(&top, &chars_of("std")) || chars_eq(&top, &chars_of("__gnu_cxx"))
        },
    }
}

/// Returns whether a type whose declaration lies at `declaration_path` (the
/// presumed path of its location; `None` when the type has no declaration or
/// the declaration has no location) belongs to an external or system header.
pub fn is_declared_in_external_or_system_header(declaration_path: Option<&str>) -> (r: bool)
    ensures
        r == match declaration_path {
            None => false,
            Some(p) => external_or_system_path(p@),
        },
{
    match declaration_path {
        None => false,
        Some(p) => is_external_or_system_path(p),
    }
}

/// A separator found inside `s` stays the first one when text is appended.
proof fn lemma_separator_index_append(s: Seq<char>, x: Seq<char>, i: int)
    requires
        0 <= i,
        separator_index(s, i) + 1 < s.len(),
    ensures
        separator_index(s + x, i) == separator_index(s, i),
    decreases s.len() - i,
{
    if i + 1 < s.len() && !(s[i] == ':' && s[i + 1] == ':') {
        lemma_separator_index_append(s, x, i + 1);
    }
}

/// A top-level name without `"::"` is its own first segment when a nested
/// name is appended after `"::"`.
proof fn lemma_first_segment_of_top_level(n: Seq<char>, t: Seq<char>, i: int)
    requires
        0 <= i <= n.len(),
        forall|j: int| 0 <= j < n.len() ==> n[j] != ':',
    ensures
        separator_index(n + "::"@ + t, i) == n.len(),
    decreases n.len() - i,
{
    reveal_strlit("::");
    let s = n + "::"@ + t;
    assert(s[n.len() as int] == ':' && s[n.len() as int + 1] == ':');
    if i < n.len() {
        assert(s[i] == n[i]);
        lemma_first_segment_of_top_level(n, t, i + 1);
    }
}

/// A namespace nested inside an excluded namespace is excluded too: once
/// `std` (or `__gnu_cxx`) is the top-level component, every namespace below
/// it, such as `std::__1`, stays outside the parsed model.
pub proof fn lemma_nested_namespace_stays_excluded(n: Seq<char>, t: Seq<char>)
    requires
        excluded_namespace(Some(n)),
    ensures
        excluded_namespace(Some(n + "::"@ + t)),
{
    reveal_strlit("std");
    reveal_strlit("__gnu_cxx");
    reveal_strlit("::");
    let s = n + "::"@ + t;
    if separator_index(n, 0) + 1 < n.len() {
        lemma_separator_index_append(n, "::"@ + t, 0);
        lemma_separator_index_bounds(n, 0);
        assert(n + ("::"@ + t) == s);
        let k = separator_index(n, 0);
        assert(s.take(k) =~= n.take(k));
    } else {
        lemma_separator_no_later(n, 0);
        assert(first_segment(n) == n);
        assert forall|j: int| 0 <= j < n.len() implies n[j] != ':' by {
            if first_segment(n) == "std"@ {
                assert(n == "std"@);
            } else {
                assert(n == "__gnu_cxx"@);
            }
        }
        lemma_first_segment_of_top_level(n, t, 0);
        assert(s.take(n.len() as int) == n);
    }
}

/// The separator index found from `i` lies between `i` and the length.
proof fn lemma_separator_index_bounds(s: Seq<char>, i: int)
    requires
        0 <= i <= s.len(),
    ensures
        i <= separator_index(s, i) <= s.len(),
    decreases s.len() - i,
{
    if i + 1 < s.len() && !(s[i] == ':' && s[i + 1] == ':') {
        lemma_separator_index_bounds(s, i + 1);
    }
}

/// When no separator lies inside `s`, the first segment is all of `s`.
proof fn lemma_separator_no_later(s: Seq<char>, i: int)
    requires
        0 <= i,
        separator_index(s, i) + 1 >= s.len(),
    ensures
        separator_index(s, i) == s.len(),
    decreases s.len() - i,
{
    if i + 1 < s.len() && !(s[i] == ':' && s[i + 1] == ':') {
        lemma_separator_no_later(s, i + 1);
    }
}

} // verus!
