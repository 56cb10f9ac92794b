//! Merges what the traversals of several translation units collect: each
//! definition is kept once, under its source-position key, in the order in
//! which it was first seen.
use vstd::prelude::*;

use indexmap::IndexMap;

use crate::cpp_model::{def_view, DefView, FunctionDef};
use crate::context::{extracted_view, extracted_views, ExtractedFunction, FunctionDefinitionKey, VisitContext};

verus! {

#[verifier::external_type_specification]
#[verifier::external_body]
#[verifier::reject_recursive_types(K)]
#[verifier::reject_recursive_types(V)]
#[verifier::reject_recursive_types(S)]
pub struct ExIndexMap<K, V, S>(IndexMap<K, V, S>);

/// The entries of a definition index, in insertion order: each key's file
/// and offset, with its definition.
pub uninterp spec fn index_entries(m: IndexMap<FunctionDefinitionKey, FunctionDef>) -> Seq<
    ((Seq<char>, u32), DefView),
>;

/// Some entry of `entries` has key `k`.
pub open spec fn has_key(entries: Seq<((Seq<char>, u32), DefView)>, k: (Seq<char>, u32)) -> bool {
    exists|i: int| 0 <= i < entries.len() && (#[trigger] entries[i]).0 == k
}

/// No two entries share a key.
pub open spec fn distinct_keys(entries: Seq<((Seq<char>, u32), DefView)>) -> bool {
    forall|i: int, j: int|
        0 <= i < entries.len() && 0 <= j < entries.len() && i != j ==> (#[trigger] entries[i]).0
            != (#[trigger] entries[j]).0
}

pub open spec fn key_view(k: FunctionDefinitionKey) -> (Seq<char>, u32) {
    (k.source_file@, k.source_offset)
}

/// Wraps `IndexMap::new`, which makes an empty map.
#[verifier::external_body]
fn new_index() -> (r: IndexMap<FunctionDefinitionKey, FunctionDef>)
    ensures
        index_entries(r) == Seq::<((Seq<char>, u32), DefView)>::empty(),
{
    IndexMap::new()
}

/// Wraps `IndexMap::contains_key`: whether an entry's key equals `key`
/// (keys are equal when their files and offsets are).
#[verifier::external_body]
fn index_contains(m: &IndexMap<FunctionDefinitionKey, FunctionDef>, key: &FunctionDefinitionKey) -> (r: bool)
    ensures
        r == has_key(index_entries(*m), key_view(*key)),
{
    m.contains_key(key)
}

/// Wraps `IndexMap::insert`: a key not yet present is appended as the last
/// entry; for a present key the entry keeps its place and takes the new
/// value, and the old value is returned.
#[verifier::external_body]
fn index_insert(
    m: &mut IndexMap<FunctionDefinitionKey, FunctionDef>,
    key: FunctionDefinitionKey,
    value: FunctionDef,
) -> (r: Option<FunctionDef>)
    ensures
        r is None <==> !has_key(index_entries(*old(m)), key_view(key)),
        !has_key(index_entries(*old(m)), key_view(key)) ==> index_entries(*final(m)) == index_entries(
            *old(m),
        ).push((key_view(key), def_view(value))),
        forall|i: int|
            0 <= i < index_entries(*old(m)).len() && (#[trigger] index_entries(*old(m))[i]).0
                == key_view(key) ==> index_entries(*final(m)) == index_entries(*old(m)).update(
                i,
                (key_view(key), def_view(value)),
            ),
{
    m.insert(key, value)
}

/// The entries after adding `s` in order, each only when its key is new.
pub open spec fn merged(
    m: Seq<((Seq<char>, u32), DefView)>,
    s: Seq<((Seq<char>, u32), DefView)>,
) -> Seq<((Seq<char>, u32), DefView)>
    decreases s.len(),
{
    if s.len() == 0 {
        m
    } else {
        let prev = merged(m, s.drop_last());
        if has_key(prev, s.last().0) {
            prev
        } else {
            prev.push(s.last())
        }
    }
}

/// The definitions collected over several translation units.
pub struct ParseOutputs {
    pub functions: IndexMap<FunctionDefinitionKey, FunctionDef>,
}

impl ParseOutputs {
    /// Outputs with no definition yet.
    pub fn new() -> (r: ParseOutputs)
        ensures
            index_entries(r.functions) == Seq::<((Seq<char>, u32), DefView)>::empty(),
    {
        ParseOutputs { functions: new_index() }
    }

    /// Adds the definitions of one traversal; a definition whose key is
    /// already present is dropped, so the first one seen is kept.
    pub fn extend_from_ctx(&mut self, ctx: VisitContext)
        ensures
            index_entries(final(self).functions) == merged(
                index_entries(old(self).functions),
                extracted_views(ctx.functions@),
            ),
    {
        let ghost start = index_entries(self.functions);
        let ghost all = ctx.functions@;
        for function in it: ctx.functions
            invariant
                it.seq() == all,
                index_entries(self.functions) == merged(
                    start,
                    extracted_views(all.take(it.index() as int)),
                ),
        {
            let ghost k = it.index();
            assert(extracted_views(all.take(k + 1)).drop_last() == extracted_views(all.take(k as int)));
            assert(extracted_views(all.take(k + 1)).last() == extracted_view(function));
            let ExtractedFunction { key, definition } = function;
            if !index_contains(&self.functions, &key) {
                let _ = index_insert(&mut self.functions, key, definition);
            }
        }
        assert(all.take(all.len() as int) == all);
    }
}

/// Merging keeps keys distinct: a definition seen through several
/// translation units is kept once.
pub proof fn lemma_merged_keys_distinct(
    m: Seq<((Seq<char>, u32), DefView)>,
    s: Seq<((Seq<char>, u32), DefView)>,
)
    requires
        distinct_keys(m),
    ensures
        distinct_keys(merged(m, s)),
    decreases s.len(),
{
    if s.len() > 0 {
        lemma_merged_keys_distinct(m, s.drop_last());
        let prev = merged(m, s.drop_last());
        if !has_key(prev, s.last().0) {
            let r = prev.push(s.last());
            assert forall|i: int, j: int|
                0 <= i < r.len() && 0 <= j < r.len() && i != j implies (#[trigger] r[i]).0 != (
            #[trigger] r[j]).0 by {
                if i < prev.len() && j < prev.len() {
                    assert(r[i] == prev[i] && r[j] == prev[j]);
                } else if i < prev.len() {
                    assert(r[i] == prev[i]);
                } else {
                    assert(r[j] == prev[j]);
                }
            }
        }
    }
}

/// Merging loses no key, and an entry already present keeps its definition:
/// the first definition seen under a key wins.
pub proof fn lemma_merged_keeps_first(
    m: Seq<((Seq<char>, u32), DefView)>,
    s: Seq<((Seq<char>, u32), DefView)>,
)
    ensures
        merged(m, s).len() >= m.len(),
        forall|i: int| 0 <= i < m.len() ==> #[trigger] merged(m, s)[i] == m[i],
        forall|i: int| 0 <= i < s.len() ==> has_key(merged(m, s), (#[trigger] s[i]).0),
    decreases s.len(),
{
    if s.len() > 0 {
        lemma_merged_keeps_first(m, s.drop_last());
        let prev = merged(m, s.drop_last());
        let r = merged(m, s);
        assert forall|i: int| 0 <= i < s.len() implies has_key(r, (#[trigger] s[i]).0) by {
            if i < s.len() - 1 {
                assert(s[i] == s.drop_last()[i]);
                assert(has_key(prev, s.drop_last()[i].0));
                let j = choose|j: int| 0 <= j < prev.len() && (#[trigger] prev[j]).0 == s[i].0;
                assert(r[j] == prev[j]);
            } else if !has_key(prev, s.last().0) {
                assert(r[prev.len() as int] == s.last());
            }
        }
    }
}

} // verus!
