//! Derives a callable's scope and enclosing namespace from its chain of
//! semantic parents.
use vstd::prelude::*;

use crate::cpp_model::{join_path, join_with_separator, texts, Scope, ScopeView};
use crate::text::copy_string;

verus! {

/// What a semantic parent contributes to a scope.
#[derive(Debug, Clone, Copy, PartialEq, Eq, Structural)]
pub enum ParentKind {
    /// A namespace.
    Namespace,
    /// A class, struct, union or class template.
    Type,
    /// Anything else (a function, a linkage block, ...): contributes nothing.
    Other,
}

/// One semantic parent of an entity: its kind and its name.
#[derive(Debug)]
pub struct SemanticParent {
    pub kind: ParentKind,
    pub name: String,
}

/// The names of the parents of kind `k`, outermost first, where `parents`
/// lists an entity's semantic parents innermost first.
pub open spec fn path_of(parents: Seq<SemanticParent>, k: ParentKind) -> Seq<Seq<char>>
    decreases parents.len(),
{
    if parents.len() == 0 {
        Seq::empty()
    } else {
        let outer = path_of(parents.drop_first(), k);
        if parents[0].kind == k {
            outer.push(parents[0].name@)
        } else {
            outer
        }
    }
}

/// The scope an entity with these semantic parents (innermost first) lives
/// in: inside its types when it has any, else in its namespaces, else global.
pub open spec fn scope_from_parents(parents: Seq<SemanticParent>) -> ScopeView {
    let namespace = path_of(parents, ParentKind::Namespace);
    let type_path = path_of(parents, ParentKind::Type);
    if type_path.len() > 0 {
        ScopeView::Type { namespace, type_path }
    } else if namespace.len() > 0 {
        ScopeView::Namespace(namespace)
    } else {
        ScopeView::Global
    }
}

/// The enclosing namespace of an entity with these semantic parents, such as
/// `std::__1`; none at global namespace scope.
pub open spec fn namespace_from_parents(parents: Seq<SemanticParent>) -> Option<Seq<char>> {
    let namespace = path_of(parents, ParentKind::Namespace);
    if namespace.len() > 0 {
        Some(join_path(namespace))
    } else {
        None
    }
}

/// The names of the parents of kind `k`, outermost first.
fn collect_path(parents: &Vec<SemanticParent>, k: ParentKind) -> (r: Vec<String>)
    ensures
        texts(r@) == path_of(parents@, k),
{
    let mut out: Vec<String> = Vec::new();
    let mut i: usize = parents.len();
    while i > 0
        invariant
            i <= parents.len(),
            texts(out@) == path_of(parents@.subrange(i as int, parents@.len() as int), k),
        decreases i,
    {
        let ghost rest = parents@.subrange(i as int, parents@.len() as int);
        i = i - 1;
        let ghost here = parents@.subrange(i as int, parents@.len() as int);
        assert(here.drop_first() == rest);
        assert(here[0] == parents@[i as int]);
        if parents[i].kind == k {
            let ghost before = out@;
            out.push(copy_string(&parents[i].name));
            assert(texts(out@) == texts(before).push(parents@[i as int].name@));
        }
    }
    assert(parents@.subrange(0, parents@.len() as int) == parents@);
    out
}

/// The scope of a callable whose semantic parents, innermost first, are
/// `parents`.
pub fn callable_scope_of(parents: &Vec<SemanticParent>) -> (r: Scope)
    ensures
        r@ == scope_from_parents(parents@),
{
    let namespace = collect_path(parents, ParentKind::Namespace);
    let type_path = collect_path(parents, ParentKind::Type);
    if type_path.len() > 0 {
        Scope::Type { namespace, type_path }
    } else if namespace.len() > 0 {
        Scope::Namespace(namespace)
    } else {
        Scope::Global
    }
}

/// The enclosing namespace, joined with `::`, of an entity whose semantic
/// parents, innermost first, are `parents`.
pub fn namespace_id_of(parents: &Vec<SemanticParent>) -> (r: Option<String>)
    ensures
        match (r, namespace_from_parents(parents@)) {
            (Some(s), Some(n)) => s@ == n,
            (None, None) => true,
            _ => false,
        },
{
    let namespace = collect_path(parents, ParentKind::Namespace);
    if namespace.len() > 0 {
        Some(join_with_separator(&namespace))
    } else {
        None
    }
}

} // verus!
