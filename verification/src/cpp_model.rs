//! The callable model extracted from C++ sources: identities, scopes, guard
//! expressions and body items, with their mathematical views.
use vstd::prelude::*;

use crate::source_location::SourceLocation;

verus! {

/// The view of a source location: its file and line.
pub open spec fn loc_view(l: SourceLocation) -> (Seq<char>, u32) {
    (l.file@, l.line)
}

/// The texts of a vector of strings.
pub open spec fn texts(v: Seq<String>) -> Seq<Seq<char>> {
    v.map_values(|s: String| s@)
}

/// Where a callable lives: at global scope, in a namespace, or in a (possibly
/// nested) type inside a namespace.
#[derive(Debug, PartialEq)]
pub enum Scope {
    Global,
    Namespace(Vec<String>),
    Type { namespace: Vec<String>, type_path: Vec<String> },
}

/// The view of a scope: its namespace and type paths as texts.
pub enum ScopeView {
    Global,
    Namespace(Seq<Seq<char>>),
    Type { namespace: Seq<Seq<char>>, type_path: Seq<Seq<char>> },
}

impl View for Scope {
    type V = ScopeView;

    open spec fn view(&self) -> ScopeView {
        match self {
            Scope::Global => ScopeView::Global,
            Scope::Namespace(p) => ScopeView::Namespace(texts(p@)),
            Scope::Type { namespace, type_path } => ScopeView::Type {
                namespace: texts(namespace@),
                type_path: texts(type_path@),
            },
        }
    }
}

/// The components of a qualified name in a scope: namespace path, then type
/// path, then the name itself.
pub open spec fn scope_components(s: ScopeView) -> Seq<Seq<char>> {
    match s {
        ScopeView::Global => Seq::empty(),
        ScopeView::Namespace(p) => p,
        ScopeView::Type { namespace, type_path } => namespace + type_path,
    }
}

/// Texts joined by `"::"`.
pub open spec fn join_path(parts: Seq<Seq<char>>) -> Seq<char>
    decreases parts.len(),
{
    if parts.len() == 0 {
        Seq::empty()
    } else if parts.len() == 1 {
        parts[0]
    } else {
        join_path(parts.drop_last()) + "::"@ + parts.last()
    }
}

/// The qualified name of a callable, such as `app::Outer::Inner::run`.
pub open spec fn qualified(id: (ScopeView, Seq<char>)) -> Seq<char> {
    join_path(scope_components(id.0).push(id.1))
}

/// A callable's identity: its scope and its name. Overloads in one scope
/// share an identity.
#[derive(Debug, PartialEq)]
pub struct FunctionId {
    pub scope: Scope,
    pub name: String,
}

impl View for FunctionId {
    type V = (ScopeView, Seq<char>);

    open spec fn view(&self) -> (ScopeView, Seq<char>) {
        (self.scope@, self.name@)
    }
}

fn copy_strings(v: &Vec<String>) -> (r: Vec<String>)
    ensures
        texts(r@) == texts(v@),
{
    let mut r: Vec<String> = Vec::new();
    let mut i: usize = 0;
    while i < v.len()
        invariant
            i <= v.len(),
            texts(r@) == texts(v@.take(i as int)),
        decreases v.len() - i,
    {
        r.push(v[i].clone());
        assert(texts(v@.take(i + 1)) == texts(v@.take(i as int)).push(v@[i as int]@));
        i = i + 1;
    }
    assert(v@.take(v.len() as int) == v@);
    r
}

fn strings_eq(a: &Vec<String>, b: &Vec<String>) -> (r: bool)
    ensures
        r == (texts(a@) == texts(b@)),
{
    if a.len() != b.len() {
        assert(texts(a@).len() != texts(b@).len());
        return false;
    }
    let mut i: usize = 0;
    while i < a.len()
        invariant
            i <= a.len() == b.len(),
            forall|j: int| 0 <= j < i ==> a@[j]@ == b@[j]@,
        decreases a.len() - i,
    {
        if a[i] != b[i] {
            assert(texts(a@)[i as int] != texts(b@)[i as int]);
            return false;
        }
        i = i + 1;
    }
    assert(texts(a@) =~= texts(b@));
    true
}

impl Scope {
    /// An equal copy of this scope.
    pub fn duplicate(&self) -> (r: Scope)
        ensures
            r@ == self@,
    {
        match self {
            Scope::Global => Scope::Global,
            Scope::Namespace(p) => Scope::Namespace(copy_strings(p)),
            Scope::Type { namespace, type_path } => Scope::Type {
                namespace: copy_strings(namespace),
                type_path: copy_strings(type_path),
            },
        }
    }

    /// Whether two scopes are the same owner.
    pub fn same_as(&self, other: &Scope) -> (r: bool)
        ensures
            r == (self@ == other@),
    {
        match (self, other) {
            (Scope::Global, Scope::Global) => true,
            (Scope::Namespace(a), Scope::Namespace(b)) => strings_eq(a, b),
            (
                Scope::Type { namespace: na, type_path: ta },
                Scope::Type { namespace: nb, type_path: tb },
            ) => strings_eq(na, nb) && strings_eq(ta, tb),
            _ => false,
        }
    }

    /// The namespace and type path components of this scope, in order.
    fn components(&self) -> (r: Vec<String>)
        ensures
            texts(r@) == scope_components(self@),
    {
        match self {
            Scope::Global => Vec::new(),
            Scope::Namespace(p) => copy_strings(p),
            Scope::Type { namespace, type_path } => {
                let mut r = copy_strings(namespace);
                let mut t = copy_strings(type_path);
                let ghost r0 = r@;
                let ghost t0 = t@;
                r.append(&mut t);
                assert(texts(r@) =~= texts(r0) + texts(t0));
                r
            },
        }
    }
}

/// Texts joined by `"::"`.
pub fn join_with_separator(parts: &Vec<String>) -> (r: String)
    ensures
        r@ == join_path(texts(parts@)),
{
    let mut out = String::new();
    let mut i: usize = 0;
    while i < parts.len()
        invariant
            i <= parts.len(),
            out@ == join_path(texts(parts@.take(i as int))),
        decreases parts.len() - i,
    {
        let ghost before = texts(parts@.take(i as int));
        assert(texts(parts@.take(i + 1)) == before.push(parts@[i as int]@));
        assert(before.push(parts@[i as int]@).drop_last() == before);
        if i > 0 {
            out.append("::");
        }
        out.append(parts[i].as_str());
        i = i + 1;
    }
    assert(parts@.take(parts.len() as int) == parts@);
    out
}

impl FunctionId {
    /// The qualified name, such as `app::Outer::Inner::run`.
    pub fn qualified_name(&self) -> (r: String)
        ensures
            r@ == qualified(self@),
    {
        let mut parts = self.scope.components();
        let ghost before = parts@;
        parts.push(self.name.clone());
        assert(texts(parts@) == texts(before).push(self.name@));
        join_with_separator(&parts)
    }

    /// An equal copy of this identity.
    pub fn duplicate(&self) -> (r: FunctionId)
        ensures
            r@ == self@,
    {
        FunctionId { scope: self.scope.duplicate(), name: self.name.clone() }
    }
}

/// The kind of a callable.
#[derive(Debug, Clone, Copy, PartialEq, Eq, Structural)]
pub enum FunctionKind {
    Free,
    Method,
    StaticMethod,
    Constructor,
    Destructor,
    Conversion,
}

/// The kind of a loop statement.
#[derive(Debug, Clone, Copy, PartialEq, Eq, Structural)]
pub enum LoopKind {
    For,
    While,
    DoWhile,
}

/// A type as the type resolver renders it.
#[derive(Debug, PartialEq)]
pub struct ResolvedType {
    pub spelling: String,
}

/// A branch condition: `&&`, `||` and `!` are kept as a tree so that calls in
/// a condition keep their short-circuit prerequisites; everything else is a
/// source-backed leaf.
#[derive(Debug, PartialEq)]
pub enum GuardExpression {
    Call { target: String, text: String, source_location: SourceLocation },
    Not { expression: Box<GuardExpression> },
    And { expressions: Vec<GuardExpression> },
    Or { expressions: Vec<GuardExpression> },
    Opaque { text: String, source_location: SourceLocation },
}

/// The view of a guard expression.
pub enum GuardView {
    Call { target: Seq<char>, text: Seq<char>, loc: (Seq<char>, u32) },
    Not { expression: Box<GuardView> },
    And { expressions: Seq<GuardView> },
    Or { expressions: Seq<GuardView> },
    Opaque { text: Seq<char>, loc: (Seq<char>, u32) },
}

pub open spec fn guard_view(g: GuardExpression) -> GuardView
    decreases g,
{
    match g {
        GuardExpression::Call { target, text, source_location } => GuardView::Call {
            target: target@,
            text: text@,
            loc: loc_view(source_location),
        },
        GuardExpression::Not { expression } => GuardView::Not {
            expression: Box::new(guard_view(*expression)),
        },
        GuardExpression::And { expressions } => GuardView::And {
            expressions: guards_view(expressions@),
        },
        GuardExpression::Or { expressions } => GuardView::Or {
            expressions: guards_view(expressions@),
        },
        GuardExpression::Opaque { text, source_location } => GuardView::Opaque {
            text: text@,
            loc: loc_view(source_location),
        },
    }
}

pub open spec fn guards_view(s: Seq<GuardExpression>) -> Seq<GuardView>
    decreases s,
{
    if s.len() == 0 {
        Seq::empty()
    } else {
        guards_view(s.drop_last()).push(guard_view(s.last()))
    }
}

/// One item of a callable body, in execution order relative to the others.
#[derive(Debug, PartialEq)]
pub enum BodyItem {
    Call { target: String, source_location: SourceLocation },
    Branch { cases: Vec<BranchCase> },
    Loop { kind: LoopKind, body: Vec<BodyItem>, source_location: SourceLocation },
}

/// One case of a branch: a guard (none for a final `else`), a body and where
/// the case starts.
#[derive(Debug, PartialEq)]
pub struct BranchCase {
    pub guard: Option<GuardExpression>,
    pub body: Vec<BodyItem>,
    pub source_location: SourceLocation,
}

/// The view of a body item.
pub enum ItemView {
    Call { target: Seq<char>, loc: (Seq<char>, u32) },
    Branch { cases: Seq<CaseView> },
    Loop { kind: LoopKind, body: Seq<ItemView>, loc: (Seq<char>, u32) },
}

/// The view of a branch case.
pub struct CaseView {
    pub guard: Option<GuardView>,
    pub body: Seq<ItemView>,
    pub loc: (Seq<char>, u32),
}

pub open spec fn opt_guard_view(g: Option<GuardExpression>) -> Option<GuardView> {
    match g {
        Some(x) => Some(guard_view(x)),
        None => None,
    }
}

pub open spec fn item_view(b: BodyItem) -> ItemView
    decreases b,
{
    match b {
        BodyItem::Call { target, source_location } => ItemView::Call {
            target: target@,
            loc: loc_view(source_location),
        },
        BodyItem::Branch { cases } => ItemView::Branch { cases: cases_view(cases@) },
        BodyItem::Loop { kind, body, source_location } => ItemView::Loop {
            kind,
            body: items_view(body@),
            loc: loc_view(source_location),
        },
    }
}

pub open spec fn items_view(s: Seq<BodyItem>) -> Seq<ItemView>
    decreases s,
{
    if s.len() == 0 {
        Seq::empty()
    } else {
        items_view(s.drop_last()).push(item_view(s.last()))
    }
}

pub open spec fn case_view(c: BranchCase) -> CaseView
    decreases c,
{
    CaseView {
        guard: opt_guard_view(c.guard),
        body: items_view(c.body@),
        loc: loc_view(c.source_location),
    }
}

pub open spec fn cases_view(s: Seq<BranchCase>) -> Seq<CaseView>
    decreases s,
{
    if s.len() == 0 {
        Seq::empty()
    } else {
        cases_view(s.drop_last()).push(case_view(s.last()))
    }
}

/// An extracted callable definition.
#[derive(Debug, PartialEq)]
pub struct FunctionDef {
    pub id: FunctionId,
    pub kind: FunctionKind,
    pub return_type: Option<ResolvedType>,
    pub body: Vec<BodyItem>,
}

/// The view of a callable definition.
pub struct DefView {
    pub id: (ScopeView, Seq<char>),
    pub kind: FunctionKind,
    pub return_type: Option<Seq<char>>,
    pub body: Seq<ItemView>,
}

pub open spec fn opt_type_view(t: Option<ResolvedType>) -> Option<Seq<char>> {
    match t {
        Some(x) => Some(x.spelling@),
        None => None,
    }
}

pub open spec fn def_view(d: FunctionDef) -> DefView {
    DefView {
        id: d.id@,
        kind: d.kind,
        return_type: opt_type_view(d.return_type),
        body: items_view(d.body@),
    }
}

/// The view of a concatenation is the concatenation of the views.
pub proof fn lemma_items_view_append(a: Seq<BodyItem>, b: Seq<BodyItem>)
    ensures
        items_view(a + b) == items_view(a) + items_view(b),
    decreases b.len(),
{
    if b.len() == 0 {
        assert(a + b == a);
    } else {
        lemma_items_view_append(a, b.drop_last());
        assert((a + b).drop_last() == a + b.drop_last());
        assert((a + b).last() == b.last());
    }
}

/// The view of a concatenation is the concatenation of the views.
pub proof fn lemma_guards_view_append(a: Seq<GuardExpression>, b: Seq<GuardExpression>)
    ensures
        guards_view(a + b) == guards_view(a) + guards_view(b),
    decreases b.len(),
{
    if b.len() == 0 {
        assert(a + b == a);
    } else {
        lemma_guards_view_append(a, b.drop_last());
        assert((a + b).drop_last() == a + b.drop_last());
        assert((a + b).last() == b.last());
    }
}

/// The view of a concatenation is the concatenation of the views.
pub proof fn lemma_cases_view_append(a: Seq<BranchCase>, b: Seq<BranchCase>)
    ensures
        cases_view(a + b) == cases_view(a) + cases_view(b),
    decreases b.len(),
{
    if b.len() == 0 {
        assert(a + b == a);
    } else {
        lemma_cases_view_append(a, b.drop_last());
        assert((a + b).drop_last() == a + b.drop_last());
        assert((a + b).last() == b.last());
    }
}

} // verus!
