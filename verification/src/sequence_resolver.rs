//! Resolves a parsed sequence diagram: collects its participants and checks
//! that every message names a declared participant.
use vstd::prelude::*;

use crate::sequence_ast::{
    endpoint_marker, ExternalEndpoint, MessageContent, ParticipantIdentifier,
    ParticipantType as SyntaxParticipantType, SeqPumlDocument, Statement,
};
use crate::sequence_parser::participant_keyword;
use crate::source_location::SourceLocation;
use crate::text::{chars_eq, chars_of, copy_opt_string, copy_string};

verus! {

/// The kind of a participant in the resolved model.
#[derive(Debug, Clone, Copy, PartialEq, Eq, Structural)]
pub enum LogicParticipantType {
    Participant,
    Actor,
    Boundary,
    Control,
    Entity,
    Queue,
    Database,
    Collections,
}

/// A declared participant of the resolved model.
#[derive(Debug, PartialEq)]
pub struct SequenceParticipant {
    pub display_name: String,
    pub alias: Option<String>,
    pub participant_type: LogicParticipantType,
    pub source_location: SourceLocation,
    pub stereotype: Option<String>,
}

/// What resolving a document yields: its name and its declared participants,
/// in declaration order.
#[derive(Debug, PartialEq)]
pub struct ResolvedSequence {
    pub name: Option<String>,
    pub participants: Vec<SequenceParticipant>,
}

/// Resolver for sequence diagrams. It carries no state, so resolving a
/// document gives the same answer however often it is called.
pub struct SequenceResolver;

/// Error type for `SequenceResolver`.
#[derive(Debug, PartialEq)]
pub enum SequenceResolverError {
    /// A message references a participant that was not declared in a
    /// `participant` (or actor/boundary/...) statement. `role` is `caller`
    /// for the left end of the message and `callee` for the right end.
    UndeclaredParticipant { name: String, role: &'static str },
}

impl SequenceResolverError {
    /// The message of this error: `<role> '<name>' is not declared as a participant`.
    pub fn to_string(&self) -> (r: String)
        ensures
            r@ == match self {
                SequenceResolverError::UndeclaredParticipant { name, role } => role@ + " '"@
                    + name@ + "' is not declared as a participant"@,
            },
    {
        match self {
            SequenceResolverError::UndeclaredParticipant { name, role } => {
                let rs: &str = *role;
                let mut m: String = rs.to_owned();
                m.append(" '");
                m.append(name.as_str());
                m.append("' is not declared as a participant");
                m
            },
        }
    }
}

/// The resolved kind that a syntax kind maps to (same name, same meaning).
pub open spec fn logic_type_of(kind: SyntaxParticipantType) -> LogicParticipantType {
    match kind {
        SyntaxParticipantType::Participant => LogicParticipantType::Participant,
        SyntaxParticipantType::Actor => LogicParticipantType::Actor,
        SyntaxParticipantType::Boundary => LogicParticipantType::Boundary,
        SyntaxParticipantType::Control => LogicParticipantType::Control,
        SyntaxParticipantType::Entity => LogicParticipantType::Entity,
        SyntaxParticipantType::Queue => LogicParticipantType::Queue,
        SyntaxParticipantType::Database => LogicParticipantType::Database,
        SyntaxParticipantType::Collections => LogicParticipantType::Collections,
    }
}

fn map_parser_participant_type(kind: &SyntaxParticipantType) -> (r: LogicParticipantType)
    ensures
        r == logic_type_of(*kind),
{
    match kind {
        SyntaxParticipantType::Participant => LogicParticipantType::Participant,
        SyntaxParticipantType::Actor => LogicParticipantType::Actor,
        SyntaxParticipantType::Boundary => LogicParticipantType::Boundary,
        SyntaxParticipantType::Control => LogicParticipantType::Control,
        SyntaxParticipantType::Entity => LogicParticipantType::Entity,
        SyntaxParticipantType::Queue => LogicParticipantType::Queue,
        SyntaxParticipantType::Database => LogicParticipantType::Database,
        SyntaxParticipantType::Collections => LogicParticipantType::Collections,
    }
}

/// Whether a message end names an external endpoint rather than a participant.
pub fn is_special_endpoint_marker(name: &str) -> (r: bool)
    ensures
        r == endpoint_marker(name@),
{
    ExternalEndpoint::from_marker(name).is_ok()
}

/// The name by which messages refer to a participant: its alias when it has
/// one, else its display name.
pub open spec fn reference_name(id: ParticipantIdentifier) -> Seq<char> {
    match id.alias {
        Some(a) => a@,
        None => id.display_name@,
    }
}

/// The name by which messages refer to a participant.
pub fn participant_reference_name(identifier: &ParticipantIdentifier) -> (r: &str)
    ensures
        r@ == reference_name(*identifier),
{
    match &identifier.alias {
        Some(a) => a.as_str(),
        None => identifier.display_name.as_str(),
    }
}

/// Some statement of `stmts` declares a participant.
pub open spec fn declares_any(stmts: Seq<Statement>) -> bool {
    exists|i: int| 0 <= i < stmts.len() && #[trigger] stmts[i] is ParticipantDef
}

/// Some statement of `stmts` declares a participant referred to as `name`.
pub open spec fn declares(stmts: Seq<Statement>, name: Seq<char>) -> bool {
    exists|i: int|
        0 <= i < stmts.len() && (#[trigger] stmts[i] matches Statement::ParticipantDef(p)
            && reference_name(p.identifier) == name)
}

/// A message end that must be a declared participant but is not.
pub open spec fn undeclared(stmts: Seq<Statement>, name: Seq<char>) -> bool {
    name.len() > 0 && !endpoint_marker(name) && !declares(stmts, name)
}

/// The first undeclared message end at or after statement `i`: its name and
/// its role. Within one message the caller (left end) is checked first.
pub open spec fn first_undeclared(stmts: Seq<Statement>, i: int) -> Option<(Seq<char>, Seq<char>)>
    decreases stmts.len() - i,
{
    if i < 0 || i >= stmts.len() {
        None
    } else {
        match stmts[i] {
            Statement::Message(m) => match m.content {
                MessageContent::WithTargets { left, right, .. } => if undeclared(
                    stmts,
                    left@,
                ) {
                    Some((left@, "caller"@))
                } else if undeclared(stmts, right@) {
                    Some((right@, "callee"@))
                } else {
                    first_undeclared(stmts, i + 1)
                },
            },
            _ => first_undeclared(stmts, i + 1),
        }
    }
}

/// The error, if any, that resolving `stmts` reports: the first undeclared
/// message end, checked only when some participant is declared.
pub open spec fn resolution_error(stmts: Seq<Statement>) -> Option<(Seq<char>, Seq<char>)> {
    if declares_any(stmts) {
        first_undeclared(stmts, 0)
    } else {
        None
    }
}

/// The participant declarations of `stmts`, in order.
pub open spec fn declarations(stmts: Seq<Statement>) -> Seq<crate::sequence_ast::ParticipantDef>
    decreases stmts.len(),
{
    if stmts.len() == 0 {
        Seq::empty()
    } else {
        match stmts.last() {
            Statement::ParticipantDef(p) => declarations(stmts.drop_last()).push(p),
            _ => declarations(stmts.drop_last()),
        }
    }
}

/// `out` is the resolved form of the declaration `p`.
pub open spec fn resolved_from(out: SequenceParticipant, p: crate::sequence_ast::ParticipantDef) -> bool {
    &&& out.display_name == p.identifier.display_name
    &&& out.alias == p.identifier.alias
    &&& out.participant_type == logic_type_of(p.participant_type)
    &&& out.source_location == p.source_location
    &&& out.stereotype == p.stereotype
}

/// `r` holds exactly the resolved forms of `defs`, in order.
pub open spec fn resolved_all(r: Seq<SequenceParticipant>, defs: Seq<crate::sequence_ast::ParticipantDef>) -> bool {
    r.len() == defs.len() && forall|k: int| 0 <= k < r.len() ==> resolved_from(r[k], defs[k])
}

/// The texts held by a vector of character vectors.
pub open spec fn names_of(v: Seq<Vec<char>>) -> Seq<Seq<char>> {
    v.map_values(|x: Vec<char>| x@)
}

proof fn lemma_push_contains(s: Seq<Seq<char>>, x: Seq<char>, n: Seq<char>)
    ensures
        s.push(x).contains(n) <==> (s.contains(n) || x == n),
{
    if s.push(x).contains(n) {
        let k = choose|k: int| 0 <= k < s.push(x).len() && s.push(x)[k] == n;
        if k < s.len() {
            assert(s[k] == n);
        }
    }
    if s.contains(n) {
        let k = choose|k: int| 0 <= k < s.len() && s[k] == n;
        assert(s.push(x)[k] == n);
    }
    if x == n {
        assert(s.push(x)[s.len() as int] == n);
    }
}

proof fn lemma_declares_step(s: Seq<Statement>, i: int, n: Seq<char>)
    requires
        0 <= i < s.len(),
    ensures
        declares(s.take(i + 1), n) <==> (declares(s.take(i), n) || (s[i] matches Statement::ParticipantDef(p)
            && reference_name(p.identifier) == n)),
{
    if declares(s.take(i + 1), n) {
        let j = choose|j: int|
            0 <= j < s.take(i + 1).len() && (#[trigger] s.take(i + 1)[j] matches Statement::ParticipantDef(q)
                && reference_name(q.identifier) == n);
        if j < i {
            assert(s.take(i)[j] == s.take(i + 1)[j]);
        } else {
            assert(s.take(i + 1)[j] == s[i]);
        }
    }
    if declares(s.take(i), n) {
        let j = choose|j: int|
            0 <= j < s.take(i).len() && (#[trigger] s.take(i)[j] matches Statement::ParticipantDef(q)
                && reference_name(q.identifier) == n);
        assert(s.take(i + 1)[j] == s.take(i)[j]);
    }
    if s[i] matches Statement::ParticipantDef(p) && reference_name(p.identifier) == n {
        assert(s.take(i + 1)[i] == s[i]);
    }
}

proof fn lemma_declares_any_step(s: Seq<Statement>, i: int)
    requires
        0 <= i < s.len(),
    ensures
        declares_any(s.take(i + 1)) <==> (declares_any(s.take(i)) || s[i] is ParticipantDef),
{
    if declares_any(s.take(i + 1)) {
        let j = choose|j: int| 0 <= j < s.take(i + 1).len() && #[trigger] s.take(i + 1)[j] is ParticipantDef;
        if j < i {
            assert(s.take(i)[j] == s.take(i + 1)[j]);
        } else {
            assert(s.take(i + 1)[j] == s[i]);
        }
    }
    if declares_any(s.take(i)) {
        let j = choose|j: int| 0 <= j < s.take(i).len() && #[trigger] s.take(i)[j] is ParticipantDef;
        assert(s.take(i + 1)[j] == s.take(i)[j]);
    }
    if s[i] is ParticipantDef {
        assert(s.take(i + 1)[i] == s[i]);
    }
}

/// Whether `names` holds `name`.
fn holds_name(names: &Vec<Vec<char>>, name: &Vec<char>) -> (r: bool)
    ensures
        r == names_of(names@).contains(name@),
{
    let ghost views = names_of(names@);
    let mut i: usize = 0;
    while i < names.len()
        invariant
            i <= names.len(),
            views == names_of(names@),
            forall|j: int| 0 <= j < i ==> views[j] != name@,
        decreases names.len() - i,
    {
        if chars_eq(&names[i], name) {
            assert(views[i as int] == name@);
            return true;
        }
        i = i + 1;
    }
    false
}

impl SequenceResolver {
    /// Collects the declared participants of `document` and checks its
    /// messages.
    ///
    /// When at least one participant is declared, every message end that is
    /// neither empty nor an external endpoint marker must be the reference
    /// name of a declared participant; the first that is not (caller before
    /// callee within a message) is reported. When none is declared, messages
    /// are not checked.
    pub fn resolve(&mut self, document: &SeqPumlDocument) -> (r: Result<
        ResolvedSequence,
        SequenceResolverError,
    >)
        ensures
            resolution(*document, r),
    {
        let stmts = &document.statements;
        let ghost s = stmts@;
        // 1. Collect declared participants.
        let mut declared: Vec<Vec<char>> = Vec::new();
        let mut participants: Vec<SequenceParticipant> = Vec::new();
        let mut i: usize = 0;
        while i < stmts.len()
            invariant
                i <= stmts.len(),
                s == stmts@,
                resolved_all(participants@, declarations(s.take(i as int))),
                forall|n: Seq<char>|
                    #[trigger] names_of(declared@).contains(n) <==> declares(s.take(i as int), n),
                declared@.len() > 0 <==> declares_any(s.take(i as int)),
            decreases stmts.len() - i,
        {
            let ghost before = names_of(declared@);
            assert(s.take(i + 1).drop_last() == s.take(i as int));
            proof {
                lemma_declares_any_step(s, i as int);
            }
            if let Statement::ParticipantDef(p) = &stmts[i] {
                let name = chars_of(participant_reference_name(&p.identifier));
                declared.push(name);
                participants.push(
                    SequenceParticipant {
                        display_name: p.identifier.display_name.clone(),
                        alias: copy_opt_string(&p.identifier.alias),
                        participant_type: map_parser_participant_type(&p.participant_type),
                        source_location: p.source_location.duplicate(),
                        stereotype: copy_opt_string(&p.stereotype),
                    },
                );
                proof {
                    assert(names_of(declared@) == before.push(name@));
                    assert forall|n: Seq<char>|
                        #[trigger] names_of(declared@).contains(n) <==> declares(s.take(i + 1), n) by {
                        lemma_declares_step(s, i as int, n);
                        lemma_push_contains(before, name@, n);
                    }
                }
            } else {
                proof {
                    assert forall|n: Seq<char>|
                        #[trigger] names_of(declared@).contains(n) <==> declares(s.take(i + 1), n) by {
                        lemma_declares_step(s, i as int, n);
                    }
                }
            }
            i = i + 1;
        }
        assert(s.take(stmts.len() as int) == s);
        // 2. Validate message targets only when participants are declared.
        if declared.len() > 0 {
            let mut k: usize = 0;
            while k < stmts.len()
                invariant
                    k <= stmts.len(),
                    s == stmts@,
                    s == document.statements@,
                    declares_any(s),
                    forall|n: Seq<char>| #[trigger] names_of(declared@).contains(n) <==> declares(s, n),
                    first_undeclared(s, k as int) == first_undeclared(s, 0),
                decreases stmts.len() - k,
            {
                if let Statement::Message(msg) = &stmts[k] {
                    let MessageContent::WithTargets { left, right, .. } = &msg.content;
                    let lv = chars_of(left.as_str());
                    if lv.len() > 0 && !is_special_endpoint_marker(left.as_str()) && !holds_name(
                        &declared,
                        &lv,
                    ) {
                        return Err(
                            SequenceResolverError::UndeclaredParticipant {
                                name: copy_string(left),
                                role: "caller",
                            },
                        );
                    }
                    let rv = chars_of(right.as_str());
                    if rv.len() > 0 && !is_special_endpoint_marker(right.as_str()) && !holds_name(
                        &declared,
                        &rv,
                    ) {
                        return Err(
                            SequenceResolverError::UndeclaredParticipant {
                                name: copy_string(right),
                                role: "callee",
                            },
                        );
                    }
                }
                k = k + 1;
            }
        }
        Ok(ResolvedSequence { name: copy_opt_string(&document.name), participants })
    }
}

/// `r` is the result of resolving `document`: an error exactly when some
/// message end is undeclared (naming the first one and its role), else the
/// document's name and its declared participants in order.
pub open spec fn resolution(document: SeqPumlDocument, r: Result<ResolvedSequence, SequenceResolverError>) -> bool {
    &&& r is Err <==> resolution_error(document.statements@) is Some
    &&& r matches Err(SequenceResolverError::UndeclaredParticipant { name, role }) ==> (name@, role@)
        == resolution_error(document.statements@).unwrap()
    &&& r matches Ok(tree) ==> tree.name == document.name && resolved_all(
        tree.participants@,
        declarations(document.statements@),
    )
}

/// Every end of every message is empty, an external endpoint marker, or a
/// declared participant.
pub open spec fn all_ends_declared(stmts: Seq<Statement>, from: int) -> bool {
    forall|i: int|
        from <= i < stmts.len() ==> (#[trigger] stmts[i] matches Statement::Message(m) ==> (
        m.content matches MessageContent::WithTargets { left, right, .. } && !undeclared(
            stmts,
            left@,
        ) && !undeclared(stmts, right@)))
}

proof fn lemma_first_undeclared_none(stmts: Seq<Statement>, k: int)
    requires
        0 <= k <= stmts.len(),
    ensures
        first_undeclared(stmts, k) is None <==> all_ends_declared(stmts, k),
    decreases stmts.len() - k,
{
    if k < stmts.len() {
        lemma_first_undeclared_none(stmts, k + 1);
        if all_ends_declared(stmts, k) {
            assert(all_ends_declared(stmts, k + 1));
        }
        if first_undeclared(stmts, k) is None {
            assert forall|i: int|
                k <= i < stmts.len() implies (#[trigger] stmts[i] matches Statement::Message(m) ==> (
                m.content matches MessageContent::WithTargets { left, right, .. } && !undeclared(
                    stmts,
                    left@,
                ) && !undeclared(stmts, right@))) by {
                if i > k {
                    assert(all_ends_declared(stmts, k + 1));
                }
            }
        }
    }
}

/// When no participant is declared, messages are not checked: resolving
/// never reports an undeclared participant.
pub proof fn lemma_undeclared_diagram_is_not_checked(document: SeqPumlDocument)
    requires
        !declares_any(document.statements@),
    ensures
        resolution_error(document.statements@) is None,
{
}

/// When participants are declared, resolving succeeds exactly when every
/// message end is empty, an external endpoint marker, or the reference name
/// of a declared participant.
pub proof fn lemma_declared_diagram_is_checked(document: SeqPumlDocument)
    requires
        declares_any(document.statements@),
    ensures
        resolution_error(document.statements@) is None <==> all_ends_declared(
            document.statements@,
            0,
        ),
{
    lemma_first_undeclared_none(document.statements@, 0);
}

/// The resolver carries no state: every result that resolving one document
/// may give is the same.
pub proof fn lemma_resolution_is_determined(
    document: SeqPumlDocument,
    r1: Result<ResolvedSequence, SequenceResolverError>,
    r2: Result<ResolvedSequence, SequenceResolverError>,
)
    requires
        resolution(document, r1),
        resolution(document, r2),
    ensures
        r1 is Ok <==> r2 is Ok,
        r1 matches Ok(a) ==> (r2 matches Ok(b) && a.name == b.name && a.participants@
            == b.participants@),
        r1 matches Err(SequenceResolverError::UndeclaredParticipant { name: n1, role: o1 }) ==> (
        r2 matches Err(SequenceResolverError::UndeclaredParticipant { name: n2, role: o2 }) && n1@
            == n2@ && o1@ == o2@),
{
    if let (Ok(a), Ok(b)) = (r1, r2) {
        assert(a.participants@ =~= b.participants@);
    }
}

/// The name of a resolved participant kind, as the keyword that declares
/// such a participant is written (in lowercase).
pub open spec fn logic_kind_name(k: LogicParticipantType) -> Seq<char> {
    match k {
        LogicParticipantType::Participant => "participant"@,
        LogicParticipantType::Actor => "actor"@,
        LogicParticipantType::Boundary => "boundary"@,
        LogicParticipantType::Control => "control"@,
        LogicParticipantType::Entity => "entity"@,
        LogicParticipantType::Queue => "queue"@,
        LogicParticipantType::Database => "database"@,
        LogicParticipantType::Collections => "collections"@,
    }
}

/// Resolving keeps a participant's kind by name: the keyword that names the
/// resolved kind declares exactly the kind that was parsed, so `database`
/// stays a database, and no two parsed kinds resolve alike.
pub proof fn lemma_resolved_kind_keeps_its_name(k: SyntaxParticipantType, j: SyntaxParticipantType)
    ensures
        participant_keyword(logic_kind_name(logic_type_of(k))) == Some(k),
        logic_type_of(k) == logic_type_of(j) ==> k == j,
{
    reveal_strlit("participant");
    reveal_strlit("actor");
    reveal_strlit("boundary");
    reveal_strlit("control");
    reveal_strlit("entity");
    reveal_strlit("queue");
    reveal_strlit("database");
    reveal_strlit("collections");
    let names = seq![
        "participant"@,
        "actor"@,
        "boundary"@,
        "control"@,
        "entity"@,
        "queue"@,
        "database"@,
        "collections"@,
    ];
    assert(names[0][0] == 'p' && names[1][0] == 'a' && names[2][0] == 'b' && names[3][0] == 'c'
        && names[4][0] == 'e' && names[5][0] == 'q' && names[6][0] == 'd');
    assert(names[3][1] == 'o' && names[7][1] == 'o' && names[3].len() != names[7].len());
    assert(names[0] != names[1] && names[0] != names[2] && names[0] != names[3] && names[0] != names[4]
        && names[0] != names[5] && names[0] != names[6] && names[0] != names[7]);
    assert(names[1] != names[2] && names[1] != names[3] && names[1] != names[4] && names[1] != names[5]
        && names[1] != names[6] && names[1] != names[7]);
    assert(names[2] != names[3] && names[2] != names[4] && names[2] != names[5] && names[2] != names[6]
        && names[2] != names[7]);
    assert(names[3] != names[4] && names[3] != names[5] && names[3] != names[6] && names[3] != names[7]);
    assert(names[4] != names[5] && names[4] != names[6] && names[4] != names[7]);
    assert(names[5] != names[6] && names[5] != names[7]);
    assert(names[6] != names[7]);
}

/// Every participant of a resolved diagram carries the kind it was declared
/// with, by name.
pub proof fn lemma_resolved_participant_keeps_its_kind(
    out: SequenceParticipant,
    p: crate::sequence_ast::ParticipantDef,
)
    requires
        resolved_from(out, p),
    ensures
        participant_keyword(logic_kind_name(out.participant_type)) == Some(p.participant_type),
{
    lemma_resolved_kind_keeps_its_name(p.participant_type, p.participant_type);
}

} // verus!
