//! Syntax tree of a PlantUML sequence diagram.
use vstd::prelude::*;

use crate::source_location::SourceLocation;
use crate::text::{opt_string_view, str_eq};

verus! {

/// A decoration at one end of (or in the middle of) an arrow, as written.
#[derive(Debug, PartialEq)]
pub struct ArrowDecor {
    pub raw: String,
}

/// The line of an arrow (`-`, `--`, ...), as written.
#[derive(Debug, PartialEq)]
pub struct ArrowLine {
    pub raw: String,
}

/// A message arrow, split into its written parts.
#[derive(Debug, PartialEq)]
pub struct Arrow {
    pub left: Option<ArrowDecor>,
    pub line: ArrowLine,
    pub middle: Option<ArrowDecor>,
    pub right: Option<ArrowDecor>,
}

/// A complete PlantUML sequence diagram.
#[derive(Debug, PartialEq)]
pub struct SeqPumlDocument {
    pub name: Option<String>,
    pub statements: Vec<Statement>,
}

/// One modelled statement of a sequence diagram.
#[derive(Debug, PartialEq)]
pub enum Statement {
    DestroyCmd(DestroyCmd),
    CreateCmd(CreateCmd),
    ActivateCmd(ActivateCmd),
    DeactivateCmd(DeactivateCmd),
    ParticipantDef(ParticipantDef),
    Message(Message),
    GroupCmd(GroupCmd),
}

/// A participant declaration (`participant`, `actor`, ...).
#[derive(Debug, PartialEq)]
pub struct ParticipantDef {
    pub is_create: bool,
    pub participant_type: ParticipantType,
    pub identifier: ParticipantIdentifier,
    pub stereotype: Option<String>,
    pub source_location: SourceLocation,
}

/// The endpoint of a message that enters or leaves the diagram
/// (`[`, `[o`, `[x`, `]`, `o]`, `x]`).
#[derive(Debug, Clone, Copy, PartialEq, Eq)]
pub struct ExternalEndpoint;

/// The texts that denote an external endpoint.
pub open spec fn endpoint_marker(s: Seq<char>) -> bool {
    ||| s == "["@
    ||| s == "[o"@
    ||| s == "[x"@
    ||| s == "]"@
    ||| s == "o]"@
    ||| s == "x]"@
}

impl ExternalEndpoint {
    /// Reads an external endpoint marker; any other text is refused.
    pub fn from_marker(value: &str) -> (r: Result<ExternalEndpoint, ()>)
        ensures
            r is Ok <==> endpoint_marker(value@),
    {
        if str_eq(value, "[") || str_eq(value, "[o") || str_eq(value, "[x") || str_eq(value, "]")
            || str_eq(value, "o]") || str_eq(value, "x]") {
            Ok(ExternalEndpoint)
        } else {
            Err(())
        }
    }

    /// The name under which an external endpoint appears in the model.
    pub fn as_name(self) -> (r: &'static str)
        ensures
            r@ == "ExternalEndpoint"@,
    {
        "ExternalEndpoint"
    }
}

impl std::str::FromStr for ExternalEndpoint {
    type Err = ();

    fn from_str(value: &str) -> (r: Result<Self, Self::Err>)
        ensures
            r is Ok <==> endpoint_marker(value@),
    {
        ExternalEndpoint::from_marker(value)
    }
}

/// The kind of a declared participant.
#[derive(Debug, Clone, Copy, PartialEq, Eq, Structural)]
pub enum ParticipantType {
    Participant,
    Actor,
    Boundary,
    Control,
    Entity,
    Queue,
    Database,
    Collections,
}

/// How a participant is named: its display name and an optional alias.
#[derive(Debug, PartialEq)]
pub struct ParticipantIdentifier {
    pub display_name: String,
    pub alias: Option<String>,
}

/// `destroy X`.
#[derive(Debug, PartialEq)]
pub struct DestroyCmd {
    pub participant: String,
}

/// `create X`.
#[derive(Debug, PartialEq)]
pub struct CreateCmd {
    pub participant: String,
}

/// `activate X`.
#[derive(Debug, PartialEq)]
pub struct ActivateCmd {
    pub participant: String,
}

/// `deactivate [X]`.
#[derive(Debug, PartialEq)]
pub struct DeactivateCmd {
    pub participant: Option<String>,
}

/// A message between two participants.
#[derive(Debug, PartialEq)]
pub struct Message {
    pub content: MessageContent,
    pub activation_marker: Option<String>,
    pub description: Option<String>,
    pub source_location: SourceLocation,
}

/// The endpoints and arrow of a message.
#[derive(Debug, PartialEq)]
pub enum MessageContent {
    WithTargets { left: String, arrow: Arrow, right: String },
}

/// `++` (activate) or `--` (deactivate) after a message arrow.
#[derive(Debug, Clone, Copy, PartialEq, Eq, Structural)]
pub enum ActivationType {
    Activate,
    Deactivate,
}

/// A group command (`alt`, `opt`, `loop`, ..., `end`).
#[derive(Debug, PartialEq)]
pub struct GroupCmd {
    pub group_type: GroupType,
    pub text: Option<String>,
    pub source_location: SourceLocation,
}

/// The keyword of a group command.
#[derive(Debug, Clone, Copy, PartialEq, Eq, Structural)]
pub enum GroupType {
    Opt,
    Alt,
    Loop,
    Par,
    Par2,
    Break,
    Critical,
    Else,
    Also,
    End,
    Group,
}

impl Arrow {
    /// An equal copy of this arrow.
    pub fn duplicate(&self) -> (r: Arrow)
        ensures
            r == *self,
    {
        Arrow {
            left: match &self.left {
                Some(d) => Some(ArrowDecor { raw: d.raw.clone() }),
                None => None,
            },
            line: ArrowLine { raw: self.line.raw.clone() },
            middle: match &self.middle {
                Some(d) => Some(ArrowDecor { raw: d.raw.clone() }),
                None => None,
            },
            right: match &self.right {
                Some(d) => Some(ArrowDecor { raw: d.raw.clone() }),
                None => None,
            },
        }
    }
}

/// The view of a participant declaration.
pub struct ParticipantView {
    pub is_create: bool,
    pub participant_type: ParticipantType,
    pub display_name: Seq<char>,
    pub alias: Option<Seq<char>>,
    pub stereotype: Option<Seq<char>>,
    pub loc: (Seq<char>, u32),
}

/// The view of a message.
pub struct MessageView {
    pub left: Seq<char>,
    pub arrow: Arrow,
    pub right: Seq<char>,
    pub activation_marker: Option<Seq<char>>,
    pub description: Option<Seq<char>>,
    pub loc: (Seq<char>, u32),
}

/// The view of a group command.
pub struct GroupView {
    pub group_type: GroupType,
    pub text: Option<Seq<char>>,
    pub loc: (Seq<char>, u32),
}

/// The view of a statement.
pub enum StatementView {
    Destroy(Seq<char>),
    Create(Seq<char>),
    Activate(Seq<char>),
    Deactivate(Option<Seq<char>>),
    Participant(ParticipantView),
    Message(MessageView),
    Group(GroupView),
}

pub open spec fn statement_view(st: Statement) -> StatementView {
    match st {
        Statement::DestroyCmd(c) => StatementView::Destroy(c.participant@),
        Statement::CreateCmd(c) => StatementView::Create(c.participant@),
        Statement::ActivateCmd(c) => StatementView::Activate(c.participant@),
        Statement::DeactivateCmd(c) => StatementView::Deactivate(opt_string_view(c.participant)),
        Statement::ParticipantDef(p) => StatementView::Participant(
            ParticipantView {
                is_create: p.is_create,
                participant_type: p.participant_type,
                display_name: p.identifier.display_name@,
                alias: opt_string_view(p.identifier.alias),
                stereotype: opt_string_view(p.stereotype),
                loc: (p.source_location.file@, p.source_location.line),
            },
        ),
        Statement::Message(m) => match m.content {
            MessageContent::WithTargets { left, arrow, right } => StatementView::Message(
                MessageView {
                    left: left@,
                    arrow,
                    right: right@,
                    activation_marker: opt_string_view(m.activation_marker),
                    description: opt_string_view(m.description),
                    loc: (m.source_location.file@, m.source_location.line),
                },
            ),
        },
        Statement::GroupCmd(g) => StatementView::Group(
            GroupView {
                group_type: g.group_type,
                text: opt_string_view(g.text),
                loc: (g.source_location.file@, g.source_location.line),
            },
        ),
    }
}

pub open spec fn statements_view(s: Seq<Statement>) -> Seq<StatementView> {
    s.map_values(|st: Statement| statement_view(st))
}

} // verus!
