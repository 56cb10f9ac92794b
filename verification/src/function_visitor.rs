//! Extracts C++ callable definitions and their control flow from a cursor
//! tree: calls, branches and loops appear in execution order relative to one
//! another.
use vstd::prelude::*;

use crate::cpp_model::{
    case_view, cases_view, guard_view, guards_view, item_view, items_view, lemma_cases_view_append,
    lemma_guards_view_append, lemma_items_view_append, opt_type_view, qualified, BodyItem,
    BranchCase, CaseView, FunctionDef, FunctionId, FunctionKind, GuardExpression, GuardView,
    ItemView, LoopKind, ResolvedType, Scope, ScopeView, DefView,
};
use crate::cursor::{loc_of, parse_source_location, Cursor, CursorKind, EntityFacts, Token};
use crate::text::{opt_string_view, str_eq};

verus! {

/// The identity of a callable as a view: its scope and its name.
pub type IdView = (ScopeView, Seq<char>);

/// The kind of callable that an entity is, if it is one.
pub open spec fn function_kind(f: EntityFacts) -> Option<FunctionKind> {
    match f.kind {
        CursorKind::FunctionDecl => Some(FunctionKind::Free),
        CursorKind::FunctionTemplate => match f.scope {
            None => None,
            Some(Scope::Type { .. }) => Some(
                if f.is_static_method {
                    FunctionKind::StaticMethod
                } else {
                    FunctionKind::Method
                },
            ),
            Some(_) => Some(FunctionKind::Free),
        },
        CursorKind::Method => Some(
            if f.is_static_method {
                FunctionKind::StaticMethod
            } else {
                FunctionKind::Method
            },
        ),
        CursorKind::Constructor => Some(FunctionKind::Constructor),
        CursorKind::Destructor => Some(FunctionKind::Destructor),
        CursorKind::ConversionFunction => Some(FunctionKind::Conversion),
        _ => None,
    }
}

/// The identity of an entity: its callable scope and its name, when it has
/// both.
pub open spec fn function_id(f: EntityFacts) -> Option<IdView> {
    match f.scope {
        Some(s) => match f.name {
            Some(n) => Some((s@, n@)),
            None => None,
        },
        None => None,
    }
}

pub open spec fn opt_id_view(r: Option<FunctionId>) -> Option<IdView> {
    match r {
        Some(id) => Some(id@),
        None => None,
    }
}

/// The index of the first cursor of kind `k` at or after `i`, or the length
/// of `s` when there is none.
pub open spec fn kind_index(s: Seq<Cursor>, k: CursorKind, i: int) -> int
    decreases s.len() - i,
{
    if i < 0 || i >= s.len() {
        s.len() as int
    } else if s[i].facts.kind == k {
        i
    } else {
        kind_index(s, k, i + 1)
    }
}

/// The entity a call refers to: the call's own reference, or else the
/// reference of its first member-reference child (as for `ptr->method()`).
pub open spec fn referenced(c: Cursor) -> Option<EntityFacts> {
    match c.reference {
        Some(r) => Some(r),
        None => {
            let k = kind_index(c.children@, CursorKind::MemberRefExpr, 0);
            if k < c.children.len() {
                c.children@[k].reference
            } else {
                None
            }
        },
    }
}

/// The callable a call expression resolves to, when it refers to an entity
/// of a callable kind with an identity.
pub open spec fn call_target(c: Cursor) -> Option<IdView> {
    match referenced(c) {
        Some(r) => if function_kind(r) is Some {
            function_id(r)
        } else {
            None
        },
        None => None,
    }
}

/// A logical operator of a guard.
#[derive(Debug, Clone, Copy, PartialEq, Eq, Structural)]
pub enum LogicalOperator {
    And,
    Or,
}

/// The logical operator that a token spelling denotes.
pub open spec fn operator_of(s: Seq<char>) -> Option<LogicalOperator> {
    if s == "&&"@ || s == "and"@ {
        Some(LogicalOperator::And)
    } else if s == "||"@ || s == "or"@ {
        Some(LogicalOperator::Or)
    } else {
        None
    }
}

/// The first logical operator among the tokens from index `i` on that lie in
/// file `f` at an offset in `[lo, hi)`.
pub open spec fn first_operator(ts: Seq<Token>, f: Seq<char>, lo: u32, hi: u32, i: int) -> Option<
    LogicalOperator,
>
    decreases ts.len() - i,
{
    if i < 0 || i >= ts.len() {
        None
    } else {
        let t = ts[i];
        if opt_string_view(t.position.file) == Some(f) && lo <= t.position.offset < hi && operator_of(
            t.spelling@,
        ) is Some {
            operator_of(t.spelling@)
        } else {
            first_operator(ts, f, lo, hi, i + 1)
        }
    }
}

/// The logical operator written between the two direct operands `l` and `r`
/// of the binary cursor `e`. An operator nested in either operand is not
/// considered.
pub open spec fn logical_operator_of(e: Cursor, l: Cursor, r: Cursor) -> Option<LogicalOperator> {
    match (l.range, r.range) {
        (Some(lr), Some(rr)) => match lr.end.file {
            None => None,
            Some(f) => if opt_string_view(rr.start.file) != Some(f@) || lr.end.offset > rr.start.offset {
                None
            } else if e.range is None {
                None
            } else {
                first_operator(e.tokens@, f@, lr.end.offset, rr.start.offset, 0)
            },
        },
        _ => None,
    }
}

/// The cursor's extent starts with the token `op` (for `!`, also with its
/// alternative spelling `not`).
pub open spec fn leading_operator(e: Cursor, op: Seq<char>) -> bool {
    e.range is Some && e.tokens.len() > 0 && (e.tokens@[0].spelling@ == op || (op == "!"@
        && e.tokens@[0].spelling@ == "not"@))
}

/// The cursor's extent starts with `!` or `not`.
pub open spec fn leading_not(e: Cursor) -> bool {
    leading_operator(e, "!"@)
}

/// The operands of a flattened `&&` (or `||`): a guard of the same operator
/// contributes its operands, any other guard itself.
pub open spec fn flattened(g: GuardView, op: LogicalOperator) -> Seq<GuardView> {
    match g {
        GuardView::And { expressions } => if op == LogicalOperator::And {
            expressions
        } else {
            seq![g]
        },
        GuardView::Or { expressions } => if op == LogicalOperator::Or {
            expressions
        } else {
            seq![g]
        },
        _ => seq![g],
    }
}

/// `l op r` with nested operands of the same operator flattened.
pub open spec fn combined(op: LogicalOperator, l: GuardView, r: GuardView) -> GuardView {
    match op {
        LogicalOperator::And => GuardView::And { expressions: flattened(l, op) + flattened(r, op) },
        LogicalOperator::Or => GuardView::Or { expressions: flattened(l, op) + flattened(r, op) },
    }
}

/// The guard that a condition cursor becomes.
pub open spec fn guard_of(e: Cursor, caller: IdView) -> GuardView
    decreases e,
{
    let opaque = GuardView::Opaque { text: e.text@, loc: loc_of(e) };
    match e.facts.kind {
        CursorKind::CallExpr => match call_target(e) {
            Some(t) => if t.0 != caller.0 {
                GuardView::Call { target: qualified(t), text: e.text@, loc: loc_of(e) }
            } else {
                opaque
            },
            None => opaque,
        },
        CursorKind::UnaryOperator => if leading_not(e) && e.children.len() > 0 {
            GuardView::Not { expression: Box::new(guard_of(e.children@[0], caller)) }
        } else {
            opaque
        },
        CursorKind::BinaryOperator => if e.children.len() == 2 {
            match logical_operator_of(e, e.children@[0], e.children@[1]) {
                Some(op) => combined(
                    op,
                    guard_of(e.children@[0], caller),
                    guard_of(e.children@[1], caller),
                ),
                None => opaque,
            }
        } else {
            opaque
        },
        CursorKind::ParenExpr | CursorKind::UnexposedExpr => if e.children.len() == 1 {
            guard_of(e.children@[0], caller)
        } else {
            opaque
        },
        _ => opaque,
    }
}

/// The cross-owner calls of a cursor, without crossing control-flow
/// statements; calls nested in a call come before it.
pub open spec fn nested_calls(e: Cursor, caller: IdView) -> Seq<ItemView>
    decreases e,
{
    match e.facts.kind {
        CursorKind::IfStmt | CursorKind::ForStmt | CursorKind::WhileStmt | CursorKind::DoStmt => Seq::empty(),
        CursorKind::CallExpr => calls_in(e.children@, caller) + match call_target(e) {
            Some(t) => if t.0 != caller.0 {
                seq![ItemView::Call { target: qualified(t), loc: loc_of(e) }]
            } else {
                Seq::empty()
            },
            None => Seq::empty(),
        },
        _ => calls_in(e.children@, caller),
    }
}

/// The cross-owner calls of a sequence of cursors, in order.
pub open spec fn calls_in(s: Seq<Cursor>, caller: IdView) -> Seq<ItemView>
    decreases s,
{
    if s.len() == 0 {
        Seq::empty()
    } else {
        calls_in(s.drop_last(), caller) + nested_calls(s.last(), caller)
    }
}

/// The loop kind of a loop statement kind.
pub open spec fn loop_kind_of(k: CursorKind) -> LoopKind {
    match k {
        CursorKind::ForStmt => LoopKind::For,
        CursorKind::WhileStmt => LoopKind::While,
        _ => LoopKind::DoWhile,
    }
}

/// The child of a loop statement that is its body: the first child of a `do`
/// statement, the last child of any other loop.
pub open spec fn loop_body_index(e: Cursor) -> int {
    if e.facts.kind == CursorKind::DoStmt {
        0
    } else if e.children.len() == 0 {
        0
    } else {
        e.children.len() - 1
    }
}

/// The body items that a statement becomes.
pub open spec fn statement_items(e: Cursor, caller: IdView) -> Seq<ItemView>
    decreases e, 2int,
{
    match e.facts.kind {
        CursorKind::CompoundStmt => statements_items(e.children@, caller),
        CursorKind::IfStmt => match branch_cases(e, caller) {
            Some(cases) => seq![ItemView::Branch { cases }],
            None => statements_items(e.children@, caller),
        },
        CursorKind::ForStmt | CursorKind::WhileStmt | CursorKind::DoStmt => {
            let k = loop_body_index(e);
            seq![
                ItemView::Loop {
                    kind: loop_kind_of(e.facts.kind),
                    body: if k < e.children.len() {
                        statement_items(e.children@[k], caller)
                    } else {
                        Seq::empty()
                    },
                    loc: loc_of(e),
                },
            ]
        },
        _ => nested_calls(e, caller),
    }
}

/// The body items of a sequence of statements, in order.
pub open spec fn statements_items(s: Seq<Cursor>, caller: IdView) -> Seq<ItemView>
    decreases s, 2int,
{
    if s.len() == 0 {
        Seq::empty()
    } else {
        statements_items(s.drop_last(), caller) + statement_items(s.last(), caller)
    }
}

/// The ordered cases of an if / else-if / else chain, when every `if` of the
/// chain has the supported layout `[condition, then_body, else_body?]`.
pub open spec fn branch_cases(e: Cursor, caller: IdView) -> Option<Seq<CaseView>>
    decreases e, 1int,
{
    let n = e.children.len();
    if n == 2 || n == 3 {
        let first = CaseView {
            guard: Some(guard_of(e.children@[0], caller)),
            body: statement_items(e.children@[1], caller),
            loc: loc_of(e),
        };
        if n == 2 {
            Some(seq![first])
        } else {
            let else_body = e.children@[2];
            if else_body.facts.kind == CursorKind::IfStmt {
                match branch_cases(else_body, caller) {
                    Some(rest) => Some(seq![first] + rest),
                    None => None,
                }
            } else {
                Some(
                    seq![
                        first,
                        CaseView {
                            guard: None,
                            body: statement_items(else_body, caller),
                            loc: loc_of(else_body),
                        },
                    ],
                )
            }
        }
    } else {
        None
    }
}

/// The body of a callable: the items of its first compound-statement child,
/// when it has one.
pub open spec fn function_body(e: Cursor, caller: IdView) -> Option<Seq<ItemView>> {
    let k = kind_index(e.children@, CursorKind::CompoundStmt, 0);
    if k < e.children.len() {
        Some(statements_items(e.children@[k].children@, caller))
    } else {
        None
    }
}

/// The definition that a callable cursor yields: only a cursor in the main
/// file, with an identity, of a callable kind and with a compound body
/// yields one.
pub open spec fn function_def_of(e: Cursor) -> Option<DefView> {
    if !e.in_main_file {
        None
    } else {
        match function_id(e.facts) {
            None => None,
            Some(id) => match function_kind(e.facts) {
                None => None,
                Some(kind) => match function_body(e, id) {
                    None => None,
                    Some(body) => Some(
                        DefView {
                            id,
                            kind,
                            return_type: if kind == FunctionKind::Constructor || kind
                                == FunctionKind::Destructor {
                                None
                            } else {
                                opt_type_view(e.result_type)
                            },
                            body,
                        },
                    ),
                },
            },
        }
    }
}

/// Extracts callable definitions with their control flow.
pub struct FunctionVisitor;

/// The roles of the direct children of a supported if statement.
struct IfParts<'a> {
    condition: &'a Cursor,
    then_body: &'a Cursor,
    else_body: Option<&'a Cursor>,
}

fn copy_opt_type(t: &Option<ResolvedType>) -> (r: Option<ResolvedType>)
    ensures
        opt_type_view(r) == opt_type_view(*t),
{
    match t {
        Some(x) => Some(ResolvedType { spelling: x.spelling.clone() }),
        None => None,
    }
}

fn kind_eq(a: CursorKind, b: CursorKind) -> (r: bool)
    ensures
        r == (a == b),
{
    a == b
}

/// The index of the first child of kind `k`, or the number of children.
fn find_child(e: &Cursor, k: CursorKind) -> (r: usize)
    ensures
        r == kind_index(e.children@, k, 0),
{
    let mut i: usize = 0;
    while i < e.children.len()
        invariant
            i <= e.children.len(),
            kind_index(e.children@, k, i as int) == kind_index(e.children@, k, 0),
        decreases e.children.len() - i,
    {
        if kind_eq(e.children[i].facts.kind, k) {
            return i;
        }
        i = i + 1;
    }
    i
}

impl FunctionVisitor {
    /// Extracts the definition of a callable cursor, with its body's control
    /// flow, if it yields one.
    pub fn extract_function_def(entity: &Cursor) -> (r: Option<FunctionDef>)
        ensures
            match r {
                Some(d) => function_def_of(*entity) == Some(crate::cpp_model::def_view(d)),
                None => function_def_of(*entity) is None,
            },
    {
        if !entity.in_main_file {
            return None;
        }
        let id = match Self::extract_function_id(&entity.facts) {
            Some(id) => id,
            None => return None,
        };
        let kind = match Self::extract_function_kind(&entity.facts) {
            Some(k) => k,
            None => return None,
        };
        let body = match Self::process_function_body(entity, &id) {
            Some(b) => b,
            None => return None,
        };
        let return_type = if matches!(kind, FunctionKind::Constructor | FunctionKind::Destructor) {
            None
        } else {
            copy_opt_type(&entity.result_type)
        };
        Some(FunctionDef { id, kind, return_type, body })
    }

    /// The identity of an entity.
    pub fn extract_function_id(entity: &EntityFacts) -> (r: Option<FunctionId>)
        ensures
            opt_id_view(r) == function_id(*entity),
    {
        match &entity.scope {
            Some(s) => match &entity.name {
                Some(n) => Some(FunctionId { scope: s.duplicate(), name: n.clone() }),
                None => None,
            },
            None => None,
        }
    }

    /// The kind of callable an entity is.
    pub fn extract_function_kind(entity: &EntityFacts) -> (r: Option<FunctionKind>)
        ensures
            r == function_kind(*entity),
    {
        match entity.kind {
            CursorKind::FunctionDecl => Some(FunctionKind::Free),
            CursorKind::FunctionTemplate => match &entity.scope {
                None => None,
                Some(Scope::Type { .. }) => Some(
                    if entity.is_static_method {
                        FunctionKind::StaticMethod
                    } else {
                        FunctionKind::Method
                    },
                ),
                Some(_) => Some(FunctionKind::Free),
            },
            CursorKind::Method => Some(
                if entity.is_static_method {
                    FunctionKind::StaticMethod
                } else {
                    FunctionKind::Method
                },
            ),
            CursorKind::Constructor => Some(FunctionKind::Constructor),
            CursorKind::Destructor => Some(FunctionKind::Destructor),
            CursorKind::ConversionFunction => Some(FunctionKind::Conversion),
            _ => None,
        }
    }

    /// Resolves a call expression to its callable target.
    pub fn extract_call_target(call_expr: &Cursor) -> (r: Option<FunctionId>)
        ensures
            opt_id_view(r) == call_target(*call_expr),
    {
        let resolved: &EntityFacts = match &call_expr.reference {
            Some(r) => r,
            None => {
                let k = find_child(call_expr, CursorKind::MemberRefExpr);
                if k < call_expr.children.len() {
                    match &call_expr.children[k].reference {
                        Some(r) => r,
                        None => return None,
                    }
                } else {
                    return None;
                }
            },
        };
        if Self::extract_function_kind(resolved).is_none() {
            return None;
        }
        Self::extract_function_id(resolved)
    }

    /// Whether a call leaves the caller's owner.
    pub fn is_cross_owner_call(caller: &FunctionId, callee: &FunctionId) -> (r: bool)
        ensures
            r == (callee@.0 != caller@.0),
    {
        !callee.scope.same_as(&caller.scope)
    }

    /// Locates a callable's compound body and processes its statements.
    fn process_function_body(function: &Cursor, caller: &FunctionId) -> (r: Option<Vec<BodyItem>>)
        ensures
            match r {
                Some(b) => function_body(*function, caller@) == Some(items_view(b@)),
                None => function_body(*function, caller@) is None,
            },
    {
        let k = find_child(function, CursorKind::CompoundStmt);
        if k < function.children.len() {
            Some(Self::process_compound(&function.children[k], caller))
        } else {
            None
        }
    }

    /// Processes the direct statements of a cursor in source order.
    fn process_compound(compound: &Cursor, caller: &FunctionId) -> (r: Vec<BodyItem>)
        ensures
            items_view(r@) == statements_items(compound.children@, caller@),
        decreases compound, 3int,
    {
        let ghost s = compound.children@;
        let mut out: Vec<BodyItem> = Vec::new();
        let mut i: usize = 0;
        while i < compound.children.len()
            invariant
                i <= compound.children.len(),
                s == compound.children@,
                items_view(out@) == statements_items(s.take(i as int), caller@),
            decreases compound.children.len() - i,
        {
            let mut part = Self::process_statement(&compound.children[i], caller);
            let ghost before = out@;
            let ghost p = part@;
            out.append(&mut part);
            proof {
                lemma_items_view_append(before, p);
                assert(s.take(i + 1).drop_last() == s.take(i as int));
            }
            i = i + 1;
        }
        assert(s.take(compound.children.len() as int) == s);
        out
    }

    /// Processes one statement, preserving nested control-flow structure.
    fn process_statement(entity: &Cursor, caller: &FunctionId) -> (r: Vec<BodyItem>)
        ensures
            items_view(r@) == statement_items(*entity, caller@),
        decreases entity, 6int,
    {
        match entity.facts.kind {
            CursorKind::CompoundStmt => Self::process_compound(entity, caller),
            CursorKind::IfStmt => Self::process_if(entity, caller),
            CursorKind::ForStmt | CursorKind::WhileStmt | CursorKind::DoStmt => Self::process_loop(
                entity,
                caller,
            ),
            _ => Self::collect_nested_calls(entity, caller),
        }
    }

    /// Turns an if statement into one branch with ordered cases, or falls back
    /// to its children's items when its layout is unsupported.
    fn process_if(if_entity: &Cursor, caller: &FunctionId) -> (r: Vec<BodyItem>)
        requires
            if_entity.facts.kind == CursorKind::IfStmt,
        ensures
            items_view(r@) == statement_items(*if_entity, caller@),
        decreases if_entity, 5int,
    {
        match Self::collect_branch_cases(if_entity, caller) {
            Some(cases) => {
                let r = vec![BodyItem::Branch { cases }];
                proof {
                    assert(items_view(r@) =~= items_view(r@.drop_last()).push(item_view(r@[0])));
                }
                r
            },
            None => Self::process_if_fallback(if_entity, caller),
        }
    }

    /// Collects the ordered cases of an if / else-if / else chain.
    fn collect_branch_cases(if_entity: &Cursor, caller: &FunctionId) -> (r: Option<Vec<BranchCase>>)
        ensures
            match r {
                Some(c) => branch_cases(*if_entity, caller@) == Some(cases_view(c@)),
                None => branch_cases(*if_entity, caller@) is None,
            },
        decreases if_entity, 2int,
    {
        let parts = match Self::split_if_parts(if_entity) {
            Some(p) => p,
            None => return None,
        };
        let first = BranchCase {
            guard: Some(Self::extract_guard_expression(parts.condition, caller)),
            body: Self::process_statement(parts.then_body, caller),
            source_location: parse_source_location(if_entity),
        };
        let ghost first_view = case_view(first);
        let mut cases: Vec<BranchCase> = Vec::new();
        cases.push(first);
        assert(cases@.drop_last() =~= Seq::<BranchCase>::empty());
        assert(cases_view(cases@.drop_last()) =~= Seq::<CaseView>::empty());
        assert(cases@.last() == first);
        assert(cases_view(cases@) =~= seq![first_view]);
        if let Some(else_body) = parts.else_body {
            if kind_eq(else_body.facts.kind, CursorKind::IfStmt) {
                match Self::collect_branch_cases(else_body, caller) {
                    Some(rest) => {
                        let ghost c0 = cases@;
                        let mut rest = rest;
                        let ghost r0 = rest@;
                        cases.append(&mut rest);
                        proof {
                            lemma_cases_view_append(c0, r0);
                            assert(cases_view(cases@) =~= seq![first_view] + cases_view(r0));
                        }
                    },
                    None => return None,
                }
            } else {
                let ghost c0 = cases@;
                cases.push(
                    BranchCase {
                        guard: None,
                        body: Self::process_statement(else_body, caller),
                        source_location: parse_source_location(else_body),
                    },
                );
                assert(cases@.drop_last() == c0);
                assert(cases_view(cases@) =~= seq![first_view, case_view(cases@.last())]);
            }
        }
        Some(cases)
    }

    /// Maps the supported direct-child layout of an if statement,
    /// `[condition, then_body, else_body?]`, to its roles.
    fn split_if_parts<'a>(if_entity: &'a Cursor) -> (r: Option<IfParts<'a>>)
        ensures
            r is Some <==> (if_entity.children.len() == 2 || if_entity.children.len() == 3),
            r matches Some(p) ==> *p.condition == if_entity.children@[0] && *p.then_body
                == if_entity.children@[1] && (p.else_body is Some <==> if_entity.children.len()
                == 3) && (p.else_body matches Some(e) ==> *e == if_entity.children@[2]),
    {
        let n = if_entity.children.len();
        if n == 2 {
            Some(
                IfParts {
                    condition: &if_entity.children[0],
                    then_body: &if_entity.children[1],
                    else_body: None,
                },
            )
        } else if n == 3 {
            Some(
                IfParts {
                    condition: &if_entity.children[0],
                    then_body: &if_entity.children[1],
                    else_body: Some(&if_entity.children[2]),
                },
            )
        } else {
            None
        }
    }

    /// Preserves reachable calls when an if statement's layout is unsupported.
    fn process_if_fallback(if_entity: &Cursor, caller: &FunctionId) -> (r: Vec<BodyItem>)
        ensures
            items_view(r@) == statements_items(if_entity.children@, caller@),
        decreases if_entity, 4int,
    {
        Self::process_compound(if_entity, caller)
    }

    /// Extracts a condition as a tree that preserves `&&`, `||` and `!`;
    /// other expressions remain source-backed leaves.
    pub fn extract_guard_expression(entity: &Cursor, caller: &FunctionId) -> (r: GuardExpression)
        ensures
            guard_view(r) == guard_of(*entity, caller@),
        decreases entity,
    {
        match entity.facts.kind {
            CursorKind::CallExpr => {
                match Self::extract_call_target(entity) {
                    Some(target) => {
                        if Self::is_cross_owner_call(caller, &target) {
                            return GuardExpression::Call {
                                target: target.qualified_name(),
                                text: entity.text.clone(),
                                source_location: parse_source_location(entity),
                            };
                        }
                    },
                    None => {},
                }
            },
            CursorKind::UnaryOperator => {
                if Self::has_leading_operator(entity, "!") && entity.children.len() > 0 {
                    return GuardExpression::Not {
                        expression: Box::new(
                            Self::extract_guard_expression(&entity.children[0], caller),
                        ),
                    };
                }
            },
            CursorKind::BinaryOperator => {
                if entity.children.len() == 2 {
                    match Self::logical_operator(
                        entity,
                        &entity.children[0],
                        &entity.children[1],
                    ) {
                        Some(operator) => {
                            let left = Self::extract_guard_expression(&entity.children[0], caller);
                            let right = Self::extract_guard_expression(&entity.children[1], caller);
                            return Self::combine_guard_expressions(operator, left, right);
                        },
                        None => {},
                    }
                }
            },
            CursorKind::ParenExpr | CursorKind::UnexposedExpr => {
                if entity.children.len() == 1 {
                    return Self::extract_guard_expression(&entity.children[0], caller);
                }
            },
            _ => {},
        }
        GuardExpression::Opaque {
            text: entity.text.clone(),
            source_location: parse_source_location(entity),
        }
    }

    /// `left operator right`, with operands of the same operator flattened.
    pub fn combine_guard_expressions(
        operator: LogicalOperator,
        left: GuardExpression,
        right: GuardExpression,
    ) -> (r: GuardExpression)
        ensures
            guard_view(r) == combined(operator, guard_view(left), guard_view(right)),
    {
        let expressions = Self::flatten_guard_expressions(left, right, operator);
        match operator {
            LogicalOperator::And => GuardExpression::And { expressions },
            LogicalOperator::Or => GuardExpression::Or { expressions },
        }
    }

    /// The operands of `left operator right`, each guard of the same operator
    /// contributing its own operands.
    pub fn flatten_guard_expressions(
        left: GuardExpression,
        right: GuardExpression,
        operator: LogicalOperator,
    ) -> (r: Vec<GuardExpression>)
        ensures
            guards_view(r@) == flattened(guard_view(left), operator) + flattened(
                guard_view(right),
                operator,
            ),
    {
        let mut expressions: Vec<GuardExpression> = Vec::new();
        Self::absorb(&mut expressions, left, operator);
        Self::absorb(&mut expressions, right, operator);
        expressions
    }

    fn absorb(out: &mut Vec<GuardExpression>, g: GuardExpression, operator: LogicalOperator)
        ensures
            guards_view(final(out)@) == guards_view(old(out)@) + flattened(guard_view(g), operator),
    {
        let ghost before = out@;
        let ghost gv = guard_view(g);
        match g {
            GuardExpression::And { expressions: nested } if operator == LogicalOperator::And => {
                let mut nested = nested;
                let ghost n0 = nested@;
                out.append(&mut nested);
                proof {
                    lemma_guards_view_append(before, n0);
                }
            },
            GuardExpression::Or { expressions: nested } if operator == LogicalOperator::Or => {
                let mut nested = nested;
                let ghost n0 = nested@;
                out.append(&mut nested);
                proof {
                    lemma_guards_view_append(before, n0);
                }
            },
            other => {
                out.push(other);
                proof {
                    assert(out@.drop_last() == before);
                    assert(guards_view(seq![]) == Seq::<GuardView>::empty());
                }
            },
        }
    }

    /// The logical operator located between a binary cursor's direct left
    /// and right operands, if any.
    pub fn logical_operator(entity: &Cursor, left: &Cursor, right: &Cursor) -> (r: Option<
        LogicalOperator,
    >)
        ensures
            r == logical_operator_of(*entity, *left, *right),
    {
        let left_end = match &left.range {
            Some(lr) => &lr.end,
            None => return None,
        };
        let right_start = match &right.range {
            Some(rr) => &rr.start,
            None => return None,
        };
        let file = match &left_end.file {
            Some(f) => f,
            None => return None,
        };
        let same_file = match &right_start.file {
            Some(g) => *g == *file,
            None => false,
        };
        if !same_file || left_end.offset > right_start.offset {
            return None;
        }
        if entity.range.is_none() {
            return None;
        }
        let lo = left_end.offset;
        let hi = right_start.offset;
        assert(logical_operator_of(*entity, *left, *right) == first_operator(entity.tokens@, file@, lo, hi, 0));
        let mut i: usize = 0;
        while i < entity.tokens.len()
            invariant
                i <= entity.tokens.len(),
                logical_operator_of(*entity, *left, *right) == first_operator(entity.tokens@, file@, lo, hi, 0),
                first_operator(entity.tokens@, file@, lo, hi, i as int) == first_operator(
                    entity.tokens@,
                    file@,
                    lo,
                    hi,
                    0,
                ),
            decreases entity.tokens.len() - i,
        {
            let t = &entity.tokens[i];
            let in_range = match &t.position.file {
                Some(g) => *g == *file && lo <= t.position.offset && t.position.offset < hi,
                None => false,
            };
            if in_range {
                let op = Self::operator_of_spelling(t.spelling.as_str());
                if op.is_some() {
                    return op;
                }
            }
            i = i + 1;
        }
        None
    }

    fn operator_of_spelling(s: &str) -> (r: Option<LogicalOperator>)
        ensures
            r == operator_of(s@),
    {
        if str_eq(s, "&&") || str_eq(s, "and") {
            Some(LogicalOperator::And)
        } else if str_eq(s, "||") || str_eq(s, "or") {
            Some(LogicalOperator::Or)
        } else {
            None
        }
    }

    /// Whether the cursor's extent starts with the token `operator` (for
    /// `!`, also with `not`).
    pub fn has_leading_operator(entity: &Cursor, operator: &str) -> (r: bool)
        ensures
            r == leading_operator(*entity, operator@),
    {
        if entity.range.is_none() || entity.tokens.len() == 0 {
            return false;
        }
        let first = entity.tokens[0].spelling.as_str();
        str_eq(first, operator) || (str_eq(operator, "!") && str_eq(first, "not"))
    }

    /// Collects cross-owner calls in a cursor without crossing control-flow
    /// statements; nested calls precede their enclosing call.
    pub fn collect_nested_calls(entity: &Cursor, caller: &FunctionId) -> (r: Vec<BodyItem>)
        ensures
            items_view(r@) == nested_calls(*entity, caller@),
        decreases entity, 1int,
    {
        match entity.facts.kind {
            CursorKind::IfStmt | CursorKind::ForStmt | CursorKind::WhileStmt | CursorKind::DoStmt => {
                Vec::new()
            },
            CursorKind::CallExpr => {
                let mut calls = Self::collect_calls_in_children(entity, caller);
                let ghost before = calls@;
                match Self::extract_call_target(entity) {
                    Some(target) => {
                        if Self::is_cross_owner_call(caller, &target) {
                            calls.push(
                                BodyItem::Call {
                                    target: target.qualified_name(),
                                    source_location: parse_source_location(entity),
                                },
                            );
                            assert(calls@.drop_last() == before);
                            assert(items_view(calls@) =~= items_view(before) + seq![item_view(calls@.last())]);
                        } else {
                            assert(items_view(calls@) =~= items_view(before) + Seq::<ItemView>::empty());
                        }
                    },
                    None => {
                        assert(items_view(calls@) =~= items_view(before) + Seq::<ItemView>::empty());
                    },
                }
                calls
            },
            _ => Self::collect_calls_in_children(entity, caller),
        }
    }

    fn collect_calls_in_children(entity: &Cursor, caller: &FunctionId) -> (r: Vec<BodyItem>)
        ensures
            items_view(r@) == calls_in(entity.children@, caller@),
        decreases entity, 0int,
    {
        let ghost s = entity.children@;
        let mut out: Vec<BodyItem> = Vec::new();
        let mut i: usize = 0;
        while i < entity.children.len()
            invariant
                i <= entity.children.len(),
                s == entity.children@,
                items_view(out@) == calls_in(s.take(i as int), caller@),
            decreases entity.children.len() - i,
        {
            let mut part = Self::collect_nested_calls(&entity.children[i], caller);
            let ghost before = out@;
            let ghost p = part@;
            out.append(&mut part);
            proof {
                lemma_items_view_append(before, p);
                assert(s.take(i + 1).drop_last() == s.take(i as int));
            }
            i = i + 1;
        }
        assert(s.take(entity.children.len() as int) == s);
        out
    }

    /// Turns a loop statement into its single loop item.
    fn process_loop(loop_entity: &Cursor, caller: &FunctionId) -> (r: Vec<BodyItem>)
        requires
            loop_entity.facts.kind == CursorKind::ForStmt || loop_entity.facts.kind
                == CursorKind::WhileStmt || loop_entity.facts.kind == CursorKind::DoStmt,
        ensures
            items_view(r@) == statement_items(*loop_entity, caller@),
        decreases loop_entity, 5int,
    {
        let kind = match loop_entity.facts.kind {
            CursorKind::ForStmt => LoopKind::For,
            CursorKind::WhileStmt => LoopKind::While,
            _ => LoopKind::DoWhile,
        };
        let n = loop_entity.children.len();
        let body_idx: usize = if kind_eq(loop_entity.facts.kind, CursorKind::DoStmt) {
            0
        } else if n == 0 {
            0
        } else {
            n - 1
        };
        let body = if body_idx < n {
            Self::process_statement(&loop_entity.children[body_idx], caller)
        } else {
            Vec::new()
        };
        let r = vec![
            BodyItem::Loop { kind, body, source_location: parse_source_location(loop_entity) },
        ];
        proof {
            assert(items_view(r@) =~= items_view(r@.drop_last()).push(item_view(r@[0])));
        }
        r
    }
}

/// A guard tree in its flattened form: a `&&` (or `||`) has at least two
/// operands, none of which is itself a `&&` (or `||`).
pub open spec fn well_shaped(g: GuardView) -> bool
    decreases g,
{
    match g {
        GuardView::Not { expression } => well_shaped(*expression),
        GuardView::And { expressions } => expressions.len() >= 2 && forall|i: int|
            0 <= i < expressions.len() ==> !(expressions[i] is And) && well_shaped(
                #[trigger] expressions[i],
            ),
        GuardView::Or { expressions } => expressions.len() >= 2 && forall|i: int|
            0 <= i < expressions.len() ==> !(expressions[i] is Or) && well_shaped(
                #[trigger] expressions[i],
            ),
        _ => true,
    }
}

proof fn lemma_flattened_shaped(g: GuardView, op: LogicalOperator)
    requires
        well_shaped(g),
    ensures
        flattened(g, op).len() >= 1,
        forall|i: int|
            0 <= i < flattened(g, op).len() ==> well_shaped(#[trigger] flattened(g, op)[i]) && (
            op == LogicalOperator::And ==> !(flattened(g, op)[i] is And)) && (op
                == LogicalOperator::Or ==> !(flattened(g, op)[i] is Or)),
{
}

proof fn lemma_combined_shaped(op: LogicalOperator, l: GuardView, r: GuardView)
    requires
        well_shaped(l),
        well_shaped(r),
    ensures
        well_shaped(combined(op, l, r)),
{
    lemma_flattened_shaped(l, op);
    lemma_flattened_shaped(r, op);
    let a = flattened(l, op);
    let b = flattened(r, op);
    assert forall|i: int| 0 <= i < (a + b).len() implies well_shaped(#[trigger] (a + b)[i]) && (op
        == LogicalOperator::And ==> !((a + b)[i] is And)) && (op == LogicalOperator::Or ==> !((a
        + b)[i] is Or)) by {
        if i < a.len() {
            assert((a + b)[i] == a[i]);
        } else {
            assert((a + b)[i] == b[i - a.len()]);
        }
    }
}

/// Guards keep `&&`, `||` and `!` as a flattened tree: every guard that a
/// condition becomes is well shaped, however the operators nest in the
/// source.
pub proof fn lemma_guard_is_well_shaped(e: Cursor, caller: IdView)
    ensures
        well_shaped(guard_of(e, caller)),
    decreases e,
{
    match e.facts.kind {
        CursorKind::UnaryOperator => {
            if leading_not(e) && e.children.len() > 0 {
                lemma_guard_is_well_shaped(e.children@[0], caller);
            }
        },
        CursorKind::BinaryOperator => {
            if e.children.len() == 2 {
                if let Some(op) = logical_operator_of(e, e.children@[0], e.children@[1]) {
                    lemma_guard_is_well_shaped(e.children@[0], caller);
                    lemma_guard_is_well_shaped(e.children@[1], caller);
                    lemma_combined_shaped(
                        op,
                        guard_of(e.children@[0], caller),
                        guard_of(e.children@[1], caller),
                    );
                }
            }
        },
        CursorKind::ParenExpr | CursorKind::UnexposedExpr => {
            if e.children.len() == 1 {
                lemma_guard_is_well_shaped(e.children@[0], caller);
            }
        },
        _ => {},
    }
}

/// An if / else-if / else chain becomes at least one case; every case but
/// the last has a guard, so only a final `else` is unguarded.
pub proof fn lemma_only_final_case_unguarded(e: Cursor, caller: IdView)
    requires
        branch_cases(e, caller) is Some,
    ensures
        branch_cases(e, caller)->Some_0.len() >= 1,
        branch_cases(e, caller)->Some_0[0].guard is Some,
        forall|k: int|
            0 <= k < branch_cases(e, caller)->Some_0.len() - 1
                ==> (#[trigger] branch_cases(e, caller)->Some_0[k]).guard is Some,
    decreases e,
{
    let cs = branch_cases(e, caller)->Some_0;
    if e.children.len() == 3 && e.children@[2].facts.kind == CursorKind::IfStmt {
        let rest = branch_cases(e.children@[2], caller)->Some_0;
        lemma_only_final_case_unguarded(e.children@[2], caller);
        assert forall|k: int| 0 <= k < cs.len() - 1 implies (#[trigger] cs[k]).guard is Some by {
            if k > 0 {
                assert(cs[k] == rest[k - 1]);
            }
        }
    }
}

/// The items found in a non-control-flow statement are all calls.
pub proof fn lemma_nested_items_are_calls(e: Cursor, caller: IdView)
    ensures
        forall|k: int|
            0 <= k < nested_calls(e, caller).len() ==> #[trigger] nested_calls(e, caller)[k] is Call,
    decreases e,
{
    lemma_calls_in_are_calls(e.children@, caller);
}

proof fn lemma_calls_in_are_calls(s: Seq<Cursor>, caller: IdView)
    ensures
        forall|k: int| 0 <= k < calls_in(s, caller).len() ==> #[trigger] calls_in(s, caller)[k] is Call,
    decreases s,
{
    if s.len() > 0 {
        lemma_calls_in_are_calls(s.drop_last(), caller);
        lemma_nested_items_are_calls(s.last(), caller);
        let a = calls_in(s.drop_last(), caller);
        let b = nested_calls(s.last(), caller);
        assert forall|k: int| 0 <= k < (a + b).len() implies #[trigger] (a + b)[k] is Call by {
            if k < a.len() {
                assert((a + b)[k] == a[k]);
            } else {
                assert((a + b)[k] == b[k - a.len()]);
            }
        }
    }
}

/// A cross-owner call expression comes after the calls nested in its
/// arguments: its own call item is the last one it contributes.
pub proof fn lemma_enclosing_call_comes_last(e: Cursor, caller: IdView)
    requires
        e.facts.kind == CursorKind::CallExpr,
        call_target(e) matches Some(t) && t.0 != caller.0,
    ensures
        nested_calls(e, caller) == calls_in(e.children@, caller).push(
            ItemView::Call { target: qualified(call_target(e)->Some_0), loc: loc_of(e) },
        ),
{
    assert(calls_in(e.children@, caller) + seq![ItemView::Call { target: qualified(call_target(e)->Some_0), loc: loc_of(e) }]
        =~= calls_in(e.children@, caller).push(
        ItemView::Call { target: qualified(call_target(e)->Some_0), loc: loc_of(e) },
    ));
}

/// A callable yields a definition exactly when it lies in the main file, has
/// an identity, is of a supported callable kind and owns a compound body; a
/// declaration-only function therefore yields none.
pub proof fn lemma_definition_conditions(e: Cursor)
    ensures
        function_def_of(e) is Some <==> (e.in_main_file && function_id(e.facts) is Some
            && function_kind(e.facts) is Some && kind_index(
            e.children@,
            CursorKind::CompoundStmt,
            0,
        ) < e.children.len()),
{
}

/// An if statement whose layout is not supported is not given an invented
/// branch shape: it yields the items of its children in order, so no call
/// below it is lost.
pub proof fn lemma_unsupported_if_keeps_child_items(e: Cursor, caller: IdView)
    requires
        e.facts.kind == CursorKind::IfStmt,
        branch_cases(e, caller) is None,
    ensures
        statement_items(e, caller) == statements_items(e.children@, caller),
{
}

/// Parentheses never change a guard: a parenthesised condition (or an
/// implicit wrapper around one) becomes exactly the guard of what it wraps,
/// so the `&&`, `||`, `!` and cross-owner calls inside it are kept.
pub proof fn lemma_parentheses_are_transparent(e: Cursor, caller: IdView)
    requires
        e.facts.kind == CursorKind::ParenExpr || e.facts.kind == CursorKind::UnexposedExpr,
        e.children.len() == 1,
    ensures
        guard_of(e, caller) == guard_of(e.children@[0], caller),
{
}

/// A method is classified by its `static` flag: a static method is a
/// `StaticMethod`, any other method a `Method`; the same holds of a function
/// template declared inside a type.
pub proof fn lemma_static_flag_decides_method_kind(f: EntityFacts)
    requires
        f.kind == CursorKind::Method || (f.kind == CursorKind::FunctionTemplate && f.scope matches Some(
            Scope::Type { .. },
        )),
    ensures
        function_kind(f) is Some,
        function_kind(f) == Some(FunctionKind::StaticMethod) <==> f.is_static_method,
        function_kind(f) == Some(FunctionKind::Method) <==> !f.is_static_method,
{
}

/// The kind of a method's extracted definition follows its `static` flag.
pub proof fn lemma_method_definition_kind(e: Cursor)
    requires
        e.facts.kind == CursorKind::Method,
        function_def_of(e) is Some,
    ensures
        function_def_of(e).unwrap().kind == (if e.facts.is_static_method {
            FunctionKind::StaticMethod
        } else {
            FunctionKind::Method
        }),
{
    lemma_static_flag_decides_method_kind(e.facts);
}

} // verus!
