//! Walks a translation unit's cursor tree and collects the callable
//! definitions of every entity that lies inside the analysed model.
use vstd::prelude::*;

use crate::context::{extracted_views, ExtractedFunction, FunctionDefinitionKey, VisitContext};
use crate::cpp_model::DefView;
use crate::cursor::{excluded_cursor, is_excluded_entity, Cursor, CursorKind};
use crate::function_visitor::{function_def_of, FunctionVisitor};
use crate::path::{normalize_path, normalized_path};

verus! {

/// The key of a definition at cursor `e`: the file of its location, written
/// from its path components so that paths `Path` holds equal give one key,
/// and the byte offset (empty file and offset 0 when unknown).
pub open spec fn key_of(e: Cursor) -> (Seq<char>, u32) {
    match e.location {
        None => (Seq::empty(), 0),
        Some(l) => (
            match l.file {
                Some(f) => normalized_path(f@),
                None => Seq::empty(),
            },
            l.offset,
        ),
    }
}

/// What extracting a callable cursor contributes: its definition with its
/// key, when it yields one.
pub open spec fn extraction_of(e: Cursor) -> Seq<((Seq<char>, u32), DefView)> {
    match function_def_of(e) {
        Some(d) => seq![(key_of(e), d)],
        None => Seq::empty(),
    }
}

/// The cursor kinds dispatched to function extraction.
pub open spec fn callable_cursor(k: CursorKind) -> bool {
    k == CursorKind::FunctionDecl || k == CursorKind::FunctionTemplate || k == CursorKind::Method
}

/// The definitions a traversal of `e` collects, in pre-order: nothing below
/// an excluded cursor; a callable cursor's own definition before those of its
/// children.
pub open spec fn visited(e: Cursor) -> Seq<((Seq<char>, u32), DefView)>
    decreases e,
{
    if excluded_cursor(e) {
        Seq::empty()
    } else {
        (if callable_cursor(e.facts.kind) {
            extraction_of(e)
        } else {
            Seq::empty()
        }) + visited_all(e.children@)
    }
}

/// The definitions a traversal of each cursor of `s` collects, in order.
pub open spec fn visited_all(s: Seq<Cursor>) -> Seq<((Seq<char>, u32), DefView)>
    decreases s,
{
    if s.len() == 0 {
        Seq::empty()
    } else {
        visited_all(s.drop_last()) + visited(s.last())
    }
}

/// A visitor for one kind of entity.
pub trait AstVisitor {
    fn visit(ctx: &mut VisitContext, entity: &Cursor);
}

fn key_for(entity: &Cursor) -> (r: FunctionDefinitionKey)
    ensures
        (r.source_file@, r.source_offset) == key_of(*entity),
{
    match &entity.location {
        None => FunctionDefinitionKey { source_file: String::new(), source_offset: 0 },
        Some(l) => match &l.file {
            Some(f) => FunctionDefinitionKey {
                source_file: normalize_path(f.as_str()),
                source_offset: l.offset,
            },
            None => FunctionDefinitionKey { source_file: String::new(), source_offset: l.offset },
        },
    }
}

impl AstVisitor for FunctionVisitor {
    /// Adds the definition of `entity`, if it yields one, to `ctx`.
    fn visit(ctx: &mut VisitContext, entity: &Cursor)
        ensures
            extracted_views(final(ctx).functions@) == extracted_views(old(ctx).functions@)
                + extraction_of(*entity),
            final(ctx).parsed_class_info@ == old(ctx).parsed_class_info@,
    {
        let ghost before = ctx.functions@;
        match FunctionVisitor::extract_function_def(entity) {
            Some(definition) => {
                ctx.functions.push(ExtractedFunction { key: key_for(entity), definition });
                assert(extracted_views(ctx.functions@) =~= extracted_views(before)
                    + extraction_of(*entity));
            },
            None => {
                assert(extracted_views(ctx.functions@) =~= extracted_views(before)
                    + extraction_of(*entity));
            },
        }
    }
}

/// Whether the traversal skips a cursor and everything below it.
pub fn is_ignored_entity(entity: &Cursor) -> (r: bool)
    ensures
        r == excluded_cursor(*entity),
{
    is_excluded_entity(entity)
}

/// Walks a translation unit and collects callable definitions.
pub struct Visitor<'a> {
    /// The context the traversal adds to.
    pub ctx: &'a mut VisitContext,
}

impl<'a> Visitor<'a> {
    /// A visitor that adds to `ctx`.
    pub fn new(ctx: &'a mut VisitContext) -> (r: Visitor<'a>)
        ensures
            *r.ctx == *old(ctx),
            *final(ctx) == *final(r.ctx),
    {
        Visitor { ctx }
    }

    /// Visits `entity` and everything below it, adding the definitions
    /// found to the context.
    pub fn visit(&mut self, entity: &Cursor)
        ensures
            extracted_views(final(self).ctx.functions@) == extracted_views(old(self).ctx.functions@)
                + visited(*entity),
            final(self).ctx.parsed_class_info@ == old(self).ctx.parsed_class_info@,
            excluded_cursor(*entity) ==> *final(self).ctx == *old(self).ctx,
            *final(final(self).ctx) == *final(old(self).ctx),
    {
        self.visit_recursive(entity);
    }

    fn visit_recursive(&mut self, entity: &Cursor)
        ensures
            extracted_views(final(self).ctx.functions@) == extracted_views(old(self).ctx.functions@)
                + visited(*entity),
            final(self).ctx.parsed_class_info@ == old(self).ctx.parsed_class_info@,
            excluded_cursor(*entity) ==> *final(self).ctx == *old(self).ctx,
            *final(final(self).ctx) == *final(old(self).ctx),
        decreases entity,
    {
        let ghost start = self.ctx.functions@;
        if is_ignored_entity(entity) {
            assert(extracted_views(start) + visited(*entity) =~= extracted_views(start));
            return;
        }
        match entity.facts.kind {
            CursorKind::FunctionDecl | CursorKind::FunctionTemplate | CursorKind::Method => {
                FunctionVisitor::visit(self.ctx, entity);
            },
            _ => {},
        }
        let ghost mid = self.ctx.functions@;
        assert(extracted_views(mid) =~= extracted_views(start) + (if callable_cursor(
            entity.facts.kind,
        ) {
            extraction_of(*entity)
        } else {
            Seq::empty()
        }));
        let ghost s = entity.children@;
        let mut i: usize = 0;
        while i < entity.children.len()
            invariant
                i <= entity.children.len(),
                s == entity.children@,
                *final(self.ctx) == *final(old(self).ctx),
                self.ctx.parsed_class_info@ == old(self).ctx.parsed_class_info@,
                extracted_views(self.ctx.functions@) == extracted_views(mid) + visited_all(
                    s.take(i as int),
                ),
            decreases entity.children.len() - i,
        {
            self.visit_recursive(&entity.children[i]);
            assert(s.take(i + 1).drop_last() == s.take(i as int));
            i = i + 1;
        }
        assert(s.take(entity.children.len() as int) == s);
    }
}

/// Source filtering: an entity located in a system or external header, or
/// in an excluded namespace, contributes no definition, and neither does
/// anything below it.
pub proof fn lemma_excluded_subtree_contributes_nothing(e: Cursor)
    requires
        excluded_cursor(e),
    ensures
        visited(e) == Seq::<((Seq<char>, u32), DefView)>::empty(),
{
}

/// Every definition a callable cursor contributes lies in the main file of
/// its translation unit.
pub proof fn lemma_extraction_only_from_main_file(e: Cursor)
    requires
        extraction_of(e).len() > 0,
    ensures
        e.in_main_file,
{
}

/// Every free function, function template and method that is not skipped
/// and yields a definition contributes that definition first, before
/// anything found below it.
pub proof fn lemma_callable_definitions_are_collected(e: Cursor)
    requires
        !excluded_cursor(e),
        e.facts.kind == CursorKind::FunctionDecl || e.facts.kind == CursorKind::FunctionTemplate
            || e.facts.kind == CursorKind::Method,
        function_def_of(e) is Some,
    ensures
        visited(e).len() >= 1,
        visited(e)[0] == (key_of(e), function_def_of(e).unwrap()),
{
}

/// Constructors, destructors, conversion functions and every other kind
/// that is not a free function, function template or method contribute no
/// definition of their own: only what is found below them.
pub proof fn lemma_other_kinds_contribute_only_children(e: Cursor)
    requires
        !excluded_cursor(e),
        e.facts.kind != CursorKind::FunctionDecl,
        e.facts.kind != CursorKind::FunctionTemplate,
        e.facts.kind != CursorKind::Method,
    ensures
        visited(e) == visited_all(e.children@),
{
    assert(Seq::<((Seq<char>, u32), DefView)>::empty() + visited_all(e.children@) == visited_all(
        e.children@,
    ));
}

} // verus!
