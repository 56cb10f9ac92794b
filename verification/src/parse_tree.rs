//! A PlantUML parse tree held as plain values: each node's grammar rule, the
//! text it matched, its line, and its children in order.
use vstd::prelude::*;

use crate::sequence_ast::Arrow;

verus! {

/// The grammar rules of the PlantUML sequence grammar that the parser
/// distinguishes; every other rule is `Other`.
#[derive(Debug, Clone, Copy, PartialEq, Eq, Structural)]
pub enum Rule {
    SequenceStart,
    Startuml,
    PumlName,
    SequenceStatement,
    EmptyLine,
    ParticipantDef,
    Message,
    GroupCmd,
    DestroyCmd,
    CreateCmd,
    ActivateCmd,
    DeactivateCmd,
    CreateKw,
    ParticipantType,
    ParticipantIdentifier,
    Stereotype,
    OrderClause,
    QuotedDisplayWithAlias,
    DisplayWithAlias,
    AliasWithQuotedDisplay,
    QuotedDisplay,
    AliasOnly,
    MessageParticipant,
    SequenceArrow,
    ActivationMarker,
    SequenceDescription,
    GroupType,
    GroupCondition,
    ParticipantRef,
    QuotedString,
    Cname,
    Other,
}

/// One node of a parse tree.
#[derive(Debug, PartialEq)]
pub struct ParseNode {
    pub rule: Rule,
    /// The text the node matched.
    pub text: String,
    /// The 1-based line at which the node starts.
    pub line: usize,
    pub children: Vec<ParseNode>,
    /// For a `SequenceArrow` node: the arrow that the shared arrow grammar
    /// read from it, or the text of its error. `None` on other nodes.
    pub arrow: Option<Result<Arrow, String>>,
}

} // verus!
