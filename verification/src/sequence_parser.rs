//! Builds the syntax tree of a PlantUML sequence diagram from its parse tree.
//!
//! Every function here states its result over the parse tree. An outcome of
//! `None` in the specifications marks a tree that the sequence grammar does
//! not produce (a participant keyword or identifier of another shape, or an
//! arrow node without the arrow grammar's result): there the parser makes no
//! statement.
use vstd::prelude::*;

use crate::parse_tree::{ParseNode, Rule};
use crate::sequence_ast::{
    statements_view, ActivateCmd, Arrow, CreateCmd, DeactivateCmd, DestroyCmd, GroupCmd,
    GroupType, GroupView, Message, MessageContent, MessageView, ParticipantDef,
    ParticipantIdentifier, ParticipantType, ParticipantView, SeqPumlDocument, Statement,
    StatementView, statement_view,
};
use crate::source_location::SourceLocation;
use crate::text::{
    chars_of, lowercase, opt_string_view, str_eq, string_of, to_lowercase, trim, trim_chars,
    trim_end_by, trim_end_pattern, trim_start_by, trim_start_pattern, trim_str,
    trim_then_strip_char, trim_then_strip_patterns, Strip, lemma_strip_char_both_ends,
    lemma_trim_end_pattern, lemma_trim_start_pattern,
};

verus! {

/// Errors of sequence-diagram parsing.
#[derive(Debug, PartialEq)]
pub enum SequenceError {
    /// The grammar rejected the input; `location` is the (line, column) of
    /// the error when known.
    Base { message: String, location: Option<(usize, usize)> },
    /// A statement that the grammar accepted cannot be modelled.
    InvalidStatement(String),
}

impl SequenceError {
    /// Where the error lies in the input, when known.
    pub fn error_location(&self) -> (r: Option<(usize, usize)>)
        ensures
            r == match self {
                SequenceError::Base { location, .. } => *location,
                _ => None,
            },
    {
        match self {
            SequenceError::Base { location, .. } => *location,
            _ => None,
        }
    }

    /// The message of this error.
    pub fn to_string(&self) -> (r: String)
        ensures
            r@ == match self {
                SequenceError::Base { message, .. } => message@,
                SequenceError::InvalidStatement(m) => "invalid sequence statement: "@ + m@,
            },
    {
        match self {
            SequenceError::Base { message, .. } => message.clone(),
            SequenceError::InvalidStatement(m) => {
                let mut r = "invalid sequence statement: ".to_owned();
                r.append(m.as_str());
                r
            },
        }
    }
}

/// The error `e` is an invalid statement with message `m`.
pub open spec fn invalid_statement(e: SequenceError, m: Seq<char>) -> bool {
    e matches SequenceError::InvalidStatement(x) && x@ == m
}

// ---------------------------------------------------------------------------
// Text of names
// ---------------------------------------------------------------------------

/// A quoted text without its surrounding whitespace and quotation marks.
pub open spec fn quoted(s: Seq<char>) -> Seq<char> {
    trim_end_by(trim_start_by(trim(s), Strip::Char('"')), Strip::Char('"'))
}

/// A stereotype without its surrounding whitespace, `<<` and `>>`.
pub open spec fn stereotype_text(s: Seq<char>) -> Seq<char> {
    trim_end_pattern(trim_start_pattern(trim(s), "<<"@), ">>"@)
}

/// A participant name as a semantic identifier: trimmed, and without its
/// quotation marks when it is quoted.
pub open spec fn normalized_name(s: Seq<char>) -> Seq<char> {
    let v = trim(s);
    if v.len() > 0 && v[0] == '"' {
        quoted(v)
    } else {
        v
    }
}

/// The participant name that a reference node denotes.
pub open spec fn participant_ref(n: ParseNode) -> Seq<char>
    decreases n,
{
    match n.rule {
        Rule::MessageParticipant => if n.children.len() > 0 {
            participant_ref(n.children@[0])
        } else {
            Seq::empty()
        },
        Rule::ParticipantRef => if n.children.len() > 0 {
            participant_ref(n.children@[0])
        } else {
            normalized_name(trim(n.text@))
        },
        Rule::QuotedString => quoted(n.text@),
        Rule::Cname => normalized_name(n.text@),
        Rule::QuotedDisplayWithAlias | Rule::DisplayWithAlias => if n.children.len() > 1 {
            trim(n.children@[1].text@)
        } else {
            Seq::empty()
        },
        Rule::AliasWithQuotedDisplay => if n.children.len() > 0 {
            trim(n.children@[0].text@)
        } else {
            Seq::empty()
        },
        _ => trim(n.text@),
    }
}

/// The display name and alias that a `participant_identifier` node denotes.
pub open spec fn identifier_of(n: ParseNode) -> Option<(Seq<char>, Option<Seq<char>>)> {
    if n.children.len() == 0 {
        None
    } else {
        let c = n.children@[0];
        let two = c.children.len() == 2;
        match c.rule {
            Rule::QuotedDisplayWithAlias => if two {
                Some((quoted(trim(c.children@[0].text@)), Some(trim(c.children@[1].text@))))
            } else {
                None
            },
            Rule::DisplayWithAlias => if two {
                Some((trim(c.children@[0].text@), Some(trim(c.children@[1].text@))))
            } else {
                None
            },
            Rule::AliasWithQuotedDisplay => if two {
                Some((quoted(trim(c.children@[1].text@)), Some(trim(c.children@[0].text@))))
            } else {
                None
            },
            Rule::QuotedDisplay => Some((quoted(c.text@), None)),
            Rule::AliasOnly => Some((trim(c.text@), None)),
            _ => None,
        }
    }
}

/// The participant kind that a keyword denotes, compared in lowercase.
pub open spec fn participant_type_of(text: Seq<char>) -> Option<ParticipantType> {
    participant_keyword(lowercase(text))
}

/// The participant kind that an already lower-cased keyword denotes.
pub open spec fn participant_keyword(t: Seq<char>) -> Option<ParticipantType> {
    if t == "participant"@ {
        Some(ParticipantType::Participant)
    } else if t == "actor"@ {
        Some(ParticipantType::Actor)
    } else if t == "boundary"@ {
        Some(ParticipantType::Boundary)
    } else if t == "control"@ {
        Some(ParticipantType::Control)
    } else if t == "entity"@ {
        Some(ParticipantType::Entity)
    } else if t == "queue"@ {
        Some(ParticipantType::Queue)
    } else if t == "database"@ {
        Some(ParticipantType::Database)
    } else if t == "collections"@ {
        Some(ParticipantType::Collections)
    } else {
        None
    }
}

/// The group kind that a keyword denotes, compared in lowercase.
pub open spec fn group_type_of(text: Seq<char>) -> Option<GroupType> {
    group_keyword(lowercase(text))
}

/// The group kind that an already lower-cased keyword denotes.
pub open spec fn group_keyword(t: Seq<char>) -> Option<GroupType> {
    if t == "opt"@ {
        Some(GroupType::Opt)
    } else if t == "alt"@ {
        Some(GroupType::Alt)
    } else if t == "loop"@ {
        Some(GroupType::Loop)
    } else if t == "par"@ {
        Some(GroupType::Par)
    } else if t == "par2"@ {
        Some(GroupType::Par2)
    } else if t == "break"@ {
        Some(GroupType::Break)
    } else if t == "critical"@ {
        Some(GroupType::Critical)
    } else if t == "else"@ {
        Some(GroupType::Else)
    } else if t == "also"@ {
        Some(GroupType::Also)
    } else if t == "end"@ {
        Some(GroupType::End)
    } else if t == "group"@ {
        Some(GroupType::Group)
    } else {
        None
    }
}

/// The name of a `startuml` node: the trimmed text of its first `puml_name`
/// child, if any.
pub open spec fn startuml_name(n: ParseNode) -> Option<Seq<char>> {
    startuml_name_from(n.children@, 0)
}

pub open spec fn startuml_name_from(s: Seq<ParseNode>, i: int) -> Option<Seq<char>>
    decreases s.len() - i,
{
    if i < 0 || i >= s.len() {
        None
    } else if s[i].rule == Rule::PumlName {
        Some(trim(s[i].text@))
    } else {
        startuml_name_from(s, i + 1)
    }
}

// ---------------------------------------------------------------------------
// Statements
// ---------------------------------------------------------------------------

/// What reading a participant declaration's children has collected so far.
pub struct DefScan {
    pub is_create: bool,
    pub participant_type: Option<ParticipantType>,
    pub identifier: Option<(Seq<char>, Option<Seq<char>>)>,
    pub stereotype: Option<Seq<char>>,
}

pub open spec fn def_step(st: DefScan, c: ParseNode) -> Option<DefScan> {
    match c.rule {
        Rule::CreateKw => Some(DefScan { is_create: true, ..st }),
        Rule::ParticipantType => match participant_type_of(c.text@) {
            Some(t) => Some(DefScan { participant_type: Some(t), ..st }),
            None => None,
        },
        Rule::ParticipantIdentifier => match identifier_of(c) {
            Some(i) => Some(DefScan { identifier: Some(i), ..st }),
            None => None,
        },
        Rule::Stereotype => Some(DefScan { stereotype: Some(stereotype_text(c.text@)), ..st }),
        _ => Some(st),
    }
}

pub open spec fn def_scan(s: Seq<ParseNode>) -> Option<DefScan>
    decreases s.len(),
{
    if s.len() == 0 {
        Some(DefScan { is_create: false, participant_type: None, identifier: None, stereotype: None })
    } else {
        match def_scan(s.drop_last()) {
            Some(st) => def_step(st, s.last()),
            None => None,
        }
    }
}

/// The participant declaration that a `participant_def` node denotes.
pub open spec fn participant_def_of(n: ParseNode, loc: (Seq<char>, u32)) -> Option<
    Result<ParticipantView, Seq<char>>,
> {
    match def_scan(n.children@) {
        None => None,
        Some(st) => Some(
            match st.participant_type {
                None => Err("missing participant type"@),
                Some(t) => match st.identifier {
                    None => Err("missing participant identifier"@),
                    Some(id) => Ok(
                        ParticipantView {
                            is_create: st.is_create,
                            participant_type: t,
                            display_name: id.0,
                            alias: id.1,
                            stereotype: st.stereotype,
                            loc,
                        },
                    ),
                },
            },
        ),
    }
}

/// What reading a message's children has collected so far.
pub struct MsgScan {
    pub left: Option<Seq<char>>,
    pub arrow: Option<Arrow>,
    pub right: Option<Seq<char>>,
    pub activation_marker: Option<Seq<char>>,
    pub description: Option<Seq<char>>,
}

pub open spec fn msg_step(st: MsgScan, c: ParseNode) -> Option<Result<MsgScan, Seq<char>>> {
    match c.rule {
        Rule::MessageParticipant => {
            let p = participant_ref(c);
            if st.arrow is None {
                Some(Ok(MsgScan { left: Some(p), ..st }))
            } else {
                Some(Ok(MsgScan { right: Some(p), ..st }))
            }
        },
        Rule::SequenceArrow => match c.arrow {
            Some(Ok(a)) => Some(Ok(MsgScan { arrow: Some(a), ..st })),
            Some(Err(e)) => Some(Err("invalid arrow: "@ + e@)),
            None => None,
        },
        Rule::ActivationMarker => Some(Ok(MsgScan { activation_marker: Some(c.text@), ..st })),
        Rule::SequenceDescription => Some(
            Ok(
                MsgScan {
                    description: if c.children.len() > 0 {
                        Some(trim(c.children@[0].text@))
                    } else {
                        None
                    },
                    ..st
                },
            ),
        ),
        _ => Some(Ok(st)),
    }
}

pub open spec fn msg_scan(s: Seq<ParseNode>) -> Option<Result<MsgScan, Seq<char>>>
    decreases s.len(),
{
    if s.len() == 0 {
        Some(
            Ok(
                MsgScan {
                    left: None,
                    arrow: None,
                    right: None,
                    activation_marker: None,
                    description: None,
                },
            ),
        )
    } else {
        match msg_scan(s.drop_last()) {
            Some(Ok(st)) => msg_step(st, s.last()),
            other => other,
        }
    }
}

pub open spec fn or_empty(s: Option<Seq<char>>) -> Seq<char> {
    match s {
        Some(x) => x,
        None => Seq::empty(),
    }
}

/// The message that a `message` node denotes.
pub open spec fn message_of(n: ParseNode, loc: (Seq<char>, u32)) -> Option<
    Result<MessageView, Seq<char>>,
> {
    match msg_scan(n.children@) {
        None => None,
        Some(Err(e)) => Some(Err(e)),
        Some(Ok(st)) => Some(
            match st.arrow {
                None => Err("missing arrow in message"@),
                Some(a) => Ok(
                    MessageView {
                        left: or_empty(st.left),
                        arrow: a,
                        right: or_empty(st.right),
                        activation_marker: st.activation_marker,
                        description: st.description,
                        loc,
                    },
                ),
            },
        ),
    }
}

/// What reading a group command's children has collected so far.
pub open spec fn group_scan(s: Seq<ParseNode>) -> (Option<GroupType>, Option<Seq<char>>)
    decreases s.len(),
{
    if s.len() == 0 {
        (None, None)
    } else {
        let st = group_scan(s.drop_last());
        let c = s.last();
        match c.rule {
            Rule::GroupType => (group_type_of(c.text@), st.1),
            Rule::GroupCondition => (st.0, Some(trim(c.text@))),
            _ => st,
        }
    }
}

/// The group command that a `group_cmd` node denotes.
pub open spec fn group_of(n: ParseNode, loc: (Seq<char>, u32)) -> Result<GroupView, Seq<char>> {
    let st = group_scan(n.children@);
    match st.0 {
        None => Err("missing group type"@),
        Some(t) => Ok(GroupView { group_type: t, text: st.1, loc }),
    }
}

/// The participant named by the last `participant_ref` child, if any.
pub open spec fn last_ref(s: Seq<ParseNode>) -> Option<Seq<char>>
    decreases s.len(),
{
    if s.len() == 0 {
        None
    } else if s.last().rule == Rule::ParticipantRef {
        Some(participant_ref(s.last()))
    } else {
        last_ref(s.drop_last())
    }
}

/// A command that names one participant: its name, or the error `missing`.
pub open spec fn named_command(n: ParseNode, missing: Seq<char>) -> Result<Seq<char>, Seq<char>> {
    match last_ref(n.children@) {
        Some(p) => Ok(p),
        None => Err(missing),
    }
}

/// The statements that a `sequence_statement` node denotes (none for a
/// directive that is not modelled), or the error it raises.
pub open spec fn statement_of(n: ParseNode, path: Seq<char>) -> Option<
    Result<Seq<StatementView>, Seq<char>>,
> {
    let loc = (path, n.line as u32);
    if n.children.len() == 0 {
        Some(Err("empty statement"@))
    } else {
        let inner = n.children@[0];
        match inner.rule {
            Rule::ParticipantDef => match participant_def_of(inner, loc) {
                None => None,
                Some(Err(e)) => Some(Err(e)),
                Some(Ok(p)) => Some(Ok(seq![StatementView::Participant(p)])),
            },
            Rule::Message => match message_of(inner, loc) {
                None => None,
                Some(Err(e)) => Some(Err(e)),
                Some(Ok(m)) => Some(Ok(seq![StatementView::Message(m)])),
            },
            Rule::GroupCmd => Some(
                match group_of(inner, loc) {
                    Err(e) => Err(e),
                    Ok(g) => Ok(seq![StatementView::Group(g)]),
                },
            ),
            Rule::DestroyCmd => Some(
                match named_command(inner, "missing participant in destroy"@) {
                    Err(e) => Err(e),
                    Ok(p) => Ok(seq![StatementView::Destroy(p)]),
                },
            ),
            Rule::CreateCmd => Some(
                match named_command(inner, "missing participant in create"@) {
                    Err(e) => Err(e),
                    Ok(p) => Ok(seq![StatementView::Create(p)]),
                },
            ),
            Rule::ActivateCmd => Some(
                match named_command(inner, "missing participant in activate"@) {
                    Err(e) => Err(e),
                    Ok(p) => Ok(seq![StatementView::Activate(p)]),
                },
            ),
            Rule::DeactivateCmd => Some(Ok(seq![StatementView::Deactivate(last_ref(inner.children@))])),
            _ => Some(Ok(Seq::empty())),
        }
    }
}

/// A document under construction: its name and its statements so far.
pub struct DocView {
    pub name: Option<Seq<char>>,
    pub statements: Seq<StatementView>,
}

/// Reading one child of a `sequence_start` node.
pub open spec fn doc_step(st: Option<Result<DocView, Seq<char>>>, n: ParseNode, path: Seq<char>) -> Option<
    Result<DocView, Seq<char>>,
> {
    match st {
        Some(Ok(d)) => match n.rule {
            Rule::Startuml => Some(Ok(DocView { name: startuml_name(n), statements: d.statements })),
            Rule::SequenceStatement => match statement_of(n, path) {
                None => None,
                Some(Err(e)) => Some(Err(e)),
                Some(Ok(v)) => Some(Ok(DocView { name: d.name, statements: d.statements + v })),
            },
            _ => Some(Ok(d)),
        },
        other => other,
    }
}

/// Reading the nodes of `s` in order, starting from `st`.
pub open spec fn doc_fold(st: Option<Result<DocView, Seq<char>>>, s: Seq<ParseNode>, path: Seq<char>) -> Option<
    Result<DocView, Seq<char>>,
>
    decreases s.len(),
{
    if s.len() == 0 {
        st
    } else {
        doc_step(doc_fold(st, s.drop_last(), path), s.last(), path)
    }
}

/// Reading the top-level pairs of `s` in order: the children of each
/// `sequence_start` pair are read; other pairs are skipped.
pub open spec fn pairs_fold(st: Option<Result<DocView, Seq<char>>>, s: Seq<ParseNode>, path: Seq<char>) -> Option<
    Result<DocView, Seq<char>>,
>
    decreases s.len(),
{
    if s.len() == 0 {
        st
    } else {
        let before = pairs_fold(st, s.drop_last(), path);
        if s.last().rule == Rule::SequenceStart {
            doc_fold(before, s.last().children@, path)
        } else {
            before
        }
    }
}

/// The document that the top-level pairs of a sequence diagram denote, or the
/// first error; `None` when the tree is not one the grammar produces.
pub open spec fn document_of(pairs: Seq<ParseNode>, path: Seq<char>) -> Option<
    Result<DocView, Seq<char>>,
> {
    pairs_fold(Some(Ok(DocView { name: None, statements: Seq::empty() })), pairs, path)
}

/// `r` is what the parser returns for the outcome `o` of a tree the grammar
/// produces.
pub open spec fn document_matches(r: Result<SeqPumlDocument, SequenceError>, o: Result<DocView, Seq<char>>) -> bool {
    match (r, o) {
        (Ok(d), Ok(v)) => opt_string_view(d.name) == v.name && statements_view(d.statements@) == v.statements,
        (Err(e), Err(m)) => invalid_statement(e, m),
        _ => false,
    }
}

fn single(st: Statement) -> (v: Vec<Statement>)
    ensures
        v@ == seq![st],
{
    let mut v: Vec<Statement> = Vec::new();
    v.push(st);
    v
}

/// The PlantUML sequence-diagram parser.
pub struct PumlSequenceParser;

impl PumlSequenceParser {
    fn parse_startuml(pair: &ParseNode) -> (r: Option<String>)
        ensures
            opt_string_view(r) == startuml_name(*pair),
    {
        let mut i: usize = 0;
        while i < pair.children.len()
            invariant
                i <= pair.children.len(),
                startuml_name_from(pair.children@, i as int) == startuml_name(*pair),
            decreases pair.children.len() - i,
        {
            if pair.children[i].rule == Rule::PumlName {
                return Some(trim_str(pair.children[i].text.as_str()));
            }
            i = i + 1;
        }
        None
    }

    fn parse_statement(pair: &ParseNode, source_path: &str) -> (r: Option<
        Result<Vec<Statement>, SequenceError>,
    >)
        ensures
            match (r, statement_of(*pair, source_path@)) {
                (None, None) => true,
                (Some(Ok(v)), Some(Ok(w))) => statements_view(v@) == w,
                (Some(Err(e)), Some(Err(m))) => invalid_statement(e, m),
                _ => false,
            },
    {
        let source_location = SourceLocation::new(source_path, pair.line as u32);
        if pair.children.len() == 0 {
            return Some(Err(SequenceError::InvalidStatement("empty statement".to_owned())));
        }
        let inner = &pair.children[0];
        match inner.rule {
            Rule::ParticipantDef => match Self::parse_participant_def(inner, source_location) {
                None => None,
                Some(Err(e)) => Some(Err(e)),
                Some(Ok(p)) => {
                    let v = single(Statement::ParticipantDef(p));
                    assert(statements_view(v@) =~= seq![statement_view(v@[0])]);
                    Some(Ok(v))
                },
            },
            Rule::Message => match Self::parse_message(inner, source_location) {
                None => None,
                Some(Err(e)) => Some(Err(e)),
                Some(Ok(m)) => {
                    let v = single(Statement::Message(m));
                    assert(statements_view(v@) =~= seq![statement_view(v@[0])]);
                    Some(Ok(v))
                },
            },
            Rule::GroupCmd => match Self::parse_group_cmd(inner, source_location) {
                Err(e) => Some(Err(e)),
                Ok(g) => {
                    let v = single(Statement::GroupCmd(g));
                    assert(statements_view(v@) =~= seq![statement_view(v@[0])]);
                    Some(Ok(v))
                },
            },
            Rule::DestroyCmd => match Self::parse_destroy_cmd(inner) {
                Err(e) => Some(Err(e)),
                Ok(c) => {
                    let v = single(Statement::DestroyCmd(c));
                    assert(statements_view(v@) =~= seq![statement_view(v@[0])]);
                    Some(Ok(v))
                },
            },
            Rule::CreateCmd => match Self::parse_create_cmd(inner) {
                Err(e) => Some(Err(e)),
                Ok(c) => {
                    let v = single(Statement::CreateCmd(c));
                    assert(statements_view(v@) =~= seq![statement_view(v@[0])]);
                    Some(Ok(v))
                },
            },
            Rule::ActivateCmd => match Self::parse_activate_cmd(inner) {
                Err(e) => Some(Err(e)),
                Ok(c) => {
                    let v = single(Statement::ActivateCmd(c));
                    assert(statements_view(v@) =~= seq![statement_view(v@[0])]);
                    Some(Ok(v))
                },
            },
            Rule::DeactivateCmd => {
                let c = Self::parse_deactivate_cmd(inner);
                let v = single(Statement::DeactivateCmd(c));
                assert(statements_view(v@) =~= seq![statement_view(v@[0])]);
                Some(Ok(v))
            },
            _ => {
                let v: Vec<Statement> = Vec::new();
                assert(statements_view(v@) =~= Seq::<StatementView>::empty());
                Some(Ok(v))
            },
        }
    }

    fn parse_participant_def(pair: &ParseNode, source_location: SourceLocation) -> (r: Option<
        Result<ParticipantDef, SequenceError>,
    >)
        ensures
            match (r, participant_def_of(*pair, (source_location.file@, source_location.line))) {
                (None, None) => true,
                (Some(Ok(p)), Some(Ok(v))) => statement_view(Statement::ParticipantDef(p))
                    == StatementView::Participant(v),
                (Some(Err(e)), Some(Err(m))) => invalid_statement(e, m),
                _ => false,
            },
    {
        let ghost s = pair.children@;
        let mut is_create = false;
        let mut participant_type: Option<ParticipantType> = None;
        let mut identifier: Option<ParticipantIdentifier> = None;
        let mut stereotype: Option<String> = None;
        let mut i: usize = 0;
        while i < pair.children.len()
            invariant
                i <= pair.children.len(),
                s == pair.children@,
                def_scan(s.take(i as int)) == Some(
                    DefScan {
                        is_create,
                        participant_type,
                        identifier: match identifier {
                            Some(id) => Some((id.display_name@, opt_string_view(id.alias))),
                            None => None,
                        },
                        stereotype: opt_string_view(stereotype),
                    },
                ),
            decreases pair.children.len() - i,
        {
            let inner = &pair.children[i];
            assert(s.take(i + 1).drop_last() == s.take(i as int));
            match inner.rule {
                Rule::CreateKw => {
                    is_create = true;
                },
                Rule::ParticipantType => {
                    match Self::parse_participant_type(inner) {
                        Some(t) => {
                            participant_type = Some(t);
                        },
                        None => {
                            proof {
                                lemma_def_scan_stays_none(s, i as int + 1);
                            }
                            return None;
                        },
                    }
                },
                Rule::ParticipantIdentifier => {
                    match Self::parse_participant_identifier(inner) {
                        Some(id) => {
                            identifier = Some(id);
                        },
                        None => {
                            proof {
                                lemma_def_scan_stays_none(s, i as int + 1);
                            }
                            return None;
                        },
                    }
                },
                Rule::Stereotype => {
                    stereotype = Some(Self::extract_stereotype(inner.text.as_str()));
                },
                _ => {},
            }
            i = i + 1;
        }
        assert(s.take(pair.children.len() as int) == s);
        let participant_type = match participant_type {
            Some(t) => t,
            None => {
                return Some(
                    Err(SequenceError::InvalidStatement("missing participant type".to_owned())),
                );
            },
        };
        let identifier = match identifier {
            Some(id) => id,
            None => {
                return Some(
                    Err(
                        SequenceError::InvalidStatement(
                            "missing participant identifier".to_owned(),
                        ),
                    ),
                );
            },
        };
        Some(Ok(ParticipantDef { is_create, participant_type, identifier, stereotype, source_location }))
    }

    fn parse_participant_identifier(pair: &ParseNode) -> (r: Option<ParticipantIdentifier>)
        ensures
            match (r, identifier_of(*pair)) {
                (None, None) => true,
                (Some(id), Some(v)) => (id.display_name@, opt_string_view(id.alias)) == v,
                _ => false,
            },
    {
        if pair.children.len() == 0 {
            return None;
        }
        let participant = &pair.children[0];
        match participant.rule {
            Rule::QuotedDisplayWithAlias => {
                if participant.children.len() != 2 {
                    return None;
                }
                let parts = Self::participant_parts(participant);
                Some(
                    ParticipantIdentifier {
                        display_name: Self::extract_quoted_string(parts[0].as_str()),
                        alias: Some(parts[1].clone()),
                    },
                )
            },
            Rule::DisplayWithAlias => {
                if participant.children.len() != 2 {
                    return None;
                }
                let parts = Self::participant_parts(participant);
                Some(
                    ParticipantIdentifier {
                        display_name: parts[0].clone(),
                        alias: Some(parts[1].clone()),
                    },
                )
            },
            Rule::AliasWithQuotedDisplay => {
                if participant.children.len() != 2 {
                    return None;
                }
                let parts = Self::participant_parts(participant);
                Some(
                    ParticipantIdentifier {
                        display_name: Self::extract_quoted_string(parts[1].as_str()),
                        alias: Some(parts[0].clone()),
                    },
                )
            },
            Rule::QuotedDisplay => Some(
                ParticipantIdentifier {
                    display_name: Self::extract_quoted_string(participant.text.as_str()),
                    alias: None,
                },
            ),
            Rule::AliasOnly => Some(
                ParticipantIdentifier { display_name: trim_str(participant.text.as_str()), alias: None },
            ),
            _ => None,
        }
    }

    /// The trimmed texts of a node's children.
    fn participant_parts(participant: &ParseNode) -> (r: Vec<String>)
        ensures
            r.len() == participant.children.len(),
            forall|k: int|
                0 <= k < r.len() ==> #[trigger] r@[k]@ == trim(participant.children@[k].text@),
    {
        let mut r: Vec<String> = Vec::new();
        let mut i: usize = 0;
        while i < participant.children.len()
            invariant
                i <= participant.children.len(),
                r.len() == i,
                forall|k: int|
                    0 <= k < i ==> #[trigger] r@[k]@ == trim(participant.children@[k].text@),
            decreases participant.children.len() - i,
        {
            r.push(trim_str(participant.children[i].text.as_str()));
            i = i + 1;
        }
        r
    }

    fn parse_participant_type(pair: &ParseNode) -> (r: Option<ParticipantType>)
        ensures
            r == participant_type_of(pair.text@),
    {
        let lower = to_lowercase(pair.text.as_str());
        participant_type_from_lowercase(lower.as_str())
    }

    fn parse_message(pair: &ParseNode, source_location: SourceLocation) -> (r: Option<
        Result<Message, SequenceError>,
    >)
        ensures
            match (r, message_of(*pair, (source_location.file@, source_location.line))) {
                (None, None) => true,
                (Some(Ok(m)), Some(Ok(v))) => statement_view(Statement::Message(m))
                    == StatementView::Message(v),
                (Some(Err(e)), Some(Err(m))) => invalid_statement(e, m),
                _ => false,
            },
    {
        let ghost s = pair.children@;
        let mut left: Option<String> = None;
        let mut arrow: Option<Arrow> = None;
        let mut right: Option<String> = None;
        let mut activation_marker: Option<String> = None;
        let mut description: Option<String> = None;
        let mut i: usize = 0;
        while i < pair.children.len()
            invariant
                i <= pair.children.len(),
                s == pair.children@,
                msg_scan(s.take(i as int)) == Some(
                    Ok::<MsgScan, Seq<char>>(
                        MsgScan {
                            left: opt_string_view(left),
                            arrow,
                            right: opt_string_view(right),
                            activation_marker: opt_string_view(activation_marker),
                            description: opt_string_view(description),
                        },
                    ),
                ),
            decreases pair.children.len() - i,
        {
            let inner = &pair.children[i];
            assert(s.take(i + 1).drop_last() == s.take(i as int));
            match inner.rule {
                Rule::MessageParticipant => {
                    let participant = Self::extract_participant_ref(inner);
                    if arrow.is_none() {
                        left = Some(participant);
                    } else {
                        right = Some(participant);
                    }
                },
                Rule::SequenceArrow => {
                    match Self::parse_arrow(inner) {
                        None => {
                            proof {
                                lemma_msg_scan_stays(s, i as int + 1);
                            }
                            return None;
                        },
                        Some(Err(e)) => {
                            proof {
                                lemma_msg_scan_stays(s, i as int + 1);
                            }
                            return Some(Err(e));
                        },
                        Some(Ok(a)) => {
                            arrow = Some(a);
                        },
                    }
                },
                Rule::ActivationMarker => {
                    activation_marker = Some(inner.text.clone());
                },
                Rule::SequenceDescription => {
                    description = if inner.children.len() > 0 {
                        Some(trim_str(inner.children[0].text.as_str()))
                    } else {
                        None
                    };
                },
                _ => {},
            }
            i = i + 1;
        }
        assert(s.take(pair.children.len() as int) == s);
        let arrow = match arrow {
            Some(a) => a,
            None => {
                return Some(
                    Err(SequenceError::InvalidStatement("missing arrow in message".to_owned())),
                );
            },
        };
        let content = MessageContent::WithTargets {
            left: match left {
                Some(l) => l,
                None => String::new(),
            },
            arrow,
            right: match right {
                Some(r) => r,
                None => String::new(),
            },
        };
        Some(Ok(Message { content, activation_marker, description, source_location }))
    }

    /// The arrow that the arrow grammar read from an arrow node.
    fn parse_arrow(pair: &ParseNode) -> (r: Option<Result<Arrow, SequenceError>>)
        ensures
            match (r, pair.arrow) {
                (None, None) => true,
                (Some(Ok(a)), Some(Ok(b))) => a == b,
                (Some(Err(e)), Some(Err(m))) => invalid_statement(e, "invalid arrow: "@ + m@),
                _ => false,
            },
    {
        match &pair.arrow {
            None => None,
            Some(Ok(a)) => Some(Ok(a.duplicate())),
            Some(Err(e)) => {
                let mut m = "invalid arrow: ".to_owned();
                m.append(e.as_str());
                Some(Err(SequenceError::InvalidStatement(m)))
            },
        }
    }

    fn parse_group_cmd(pair: &ParseNode, source_location: SourceLocation) -> (r: Result<
        GroupCmd,
        SequenceError,
    >)
        ensures
            match (r, group_of(*pair, (source_location.file@, source_location.line))) {
                (Ok(g), Ok(v)) => statement_view(Statement::GroupCmd(g)) == StatementView::Group(v),
                (Err(e), Err(m)) => invalid_statement(e, m),
                _ => false,
            },
    {
        let ghost s = pair.children@;
        let mut group_type: Option<GroupType> = None;
        let mut text: Option<String> = None;
        let mut i: usize = 0;
        while i < pair.children.len()
            invariant
                i <= pair.children.len(),
                s == pair.children@,
                group_scan(s.take(i as int)) == (group_type, opt_string_view(text)),
            decreases pair.children.len() - i,
        {
            let inner = &pair.children[i];
            assert(s.take(i + 1).drop_last() == s.take(i as int));
            match inner.rule {
                Rule::GroupType => {
                    group_type = Self::parse_group_type(inner);
                },
                Rule::GroupCondition => {
                    text = Some(trim_str(inner.text.as_str()));
                },
                _ => {},
            }
            i = i + 1;
        }
        assert(s.take(pair.children.len() as int) == s);
        match group_type {
            Some(group_type) => Ok(GroupCmd { group_type, text, source_location }),
            None => Err(SequenceError::InvalidStatement("missing group type".to_owned())),
        }
    }

    fn parse_group_type(pair: &ParseNode) -> (r: Option<GroupType>)
        ensures
            r == group_type_of(pair.text@),
    {
        let lower = to_lowercase(pair.text.as_str());
        group_type_from_lowercase(lower.as_str())
    }

    /// The participant of the last `participant_ref` child, if any.
    fn last_participant_ref(pair: &ParseNode) -> (r: Option<String>)
        ensures
            opt_string_view(r) == last_ref(pair.children@),
    {
        let ghost s = pair.children@;
        let mut participant: Option<String> = None;
        let mut i: usize = 0;
        while i < pair.children.len()
            invariant
                i <= pair.children.len(),
                s == pair.children@,
                opt_string_view(participant) == last_ref(s.take(i as int)),
            decreases pair.children.len() - i,
        {
            assert(s.take(i + 1).drop_last() == s.take(i as int));
            if pair.children[i].rule == Rule::ParticipantRef {
                participant = Some(Self::extract_participant_ref(&pair.children[i]));
            }
            i = i + 1;
        }
        assert(s.take(pair.children.len() as int) == s);
        participant
    }

    fn parse_destroy_cmd(pair: &ParseNode) -> (r: Result<DestroyCmd, SequenceError>)
        ensures
            match (r, named_command(*pair, "missing participant in destroy"@)) {
                (Ok(c), Ok(p)) => c.participant@ == p,
                (Err(e), Err(m)) => invalid_statement(e, m),
                _ => false,
            },
    {
        match Self::last_participant_ref(pair) {
            Some(participant) => Ok(DestroyCmd { participant }),
            None => Err(SequenceError::InvalidStatement("missing participant in destroy".to_owned())),
        }
    }

    fn parse_create_cmd(pair: &ParseNode) -> (r: Result<CreateCmd, SequenceError>)
        ensures
            match (r, named_command(*pair, "missing participant in create"@)) {
                (Ok(c), Ok(p)) => c.participant@ == p,
                (Err(e), Err(m)) => invalid_statement(e, m),
                _ => false,
            },
    {
        match Self::last_participant_ref(pair) {
            Some(participant) => Ok(CreateCmd { participant }),
            None => Err(SequenceError::InvalidStatement("missing participant in create".to_owned())),
        }
    }

    fn parse_activate_cmd(pair: &ParseNode) -> (r: Result<ActivateCmd, SequenceError>)
        ensures
            match (r, named_command(*pair, "missing participant in activate"@)) {
                (Ok(c), Ok(p)) => c.participant@ == p,
                (Err(e), Err(m)) => invalid_statement(e, m),
                _ => false,
            },
    {
        match Self::last_participant_ref(pair) {
            Some(participant) => Ok(ActivateCmd { participant }),
            None => Err(
                SequenceError::InvalidStatement("missing participant in activate".to_owned()),
            ),
        }
    }

    fn parse_deactivate_cmd(pair: &ParseNode) -> (r: DeactivateCmd)
        ensures
            opt_string_view(r.participant) == last_ref(pair.children@),
    {
        DeactivateCmd { participant: Self::last_participant_ref(pair) }
    }

    /// A quoted text without its surrounding whitespace and quotation marks.
    pub fn extract_quoted_string(s: &str) -> (r: String)
        ensures
            r@ == quoted(s@),
    {
        trim_then_strip_char(s, '"')
    }

    /// A stereotype without its surrounding whitespace, `<<` and `>>`.
    pub fn extract_stereotype(s: &str) -> (r: String)
        ensures
            r@ == stereotype_text(s@),
    {
        trim_then_strip_patterns(s, "<<", ">>")
    }

    /// Sequence participant names are stored as semantic identifiers, not as
    /// source literals: quotation marks are PlantUML delimiters and are not
    /// part of the participant name in the parsed model.
    pub fn normalize_participant_name(s: &str) -> (r: String)
        ensures
            r@ == normalized_name(s@),
    {
        let value = trim_str(s);
        let v = chars_of(value.as_str());
        if v.len() > 0 && v[0] == '"' {
            Self::extract_quoted_string(value.as_str())
        } else {
            value
        }
    }

    /// The participant name that a reference node denotes.
    pub fn extract_participant_ref(pair: &ParseNode) -> (r: String)
        ensures
            r@ == participant_ref(*pair),
        decreases pair,
    {
        match pair.rule {
            Rule::MessageParticipant => if pair.children.len() > 0 {
                Self::extract_participant_ref(&pair.children[0])
            } else {
                String::new()
            },
            Rule::ParticipantRef => {
                let fallback = trim_str(pair.text.as_str());
                if pair.children.len() > 0 {
                    Self::extract_participant_ref(&pair.children[0])
                } else {
                    Self::normalize_participant_name(fallback.as_str())
                }
            },
            Rule::QuotedString => Self::extract_quoted_string(pair.text.as_str()),
            Rule::Cname => Self::normalize_participant_name(pair.text.as_str()),
            Rule::QuotedDisplayWithAlias | Rule::DisplayWithAlias => if pair.children.len() > 1 {
                trim_str(pair.children[1].text.as_str())
            } else {
                String::new()
            },
            Rule::AliasWithQuotedDisplay => if pair.children.len() > 0 {
                trim_str(pair.children[0].text.as_str())
            } else {
                String::new()
            },
            _ => trim_str(pair.text.as_str()),
        }
    }
}

/// Once reading a participant declaration's children runs into a node the
/// grammar does not produce, it stays there.
proof fn lemma_def_scan_stays_none(s: Seq<ParseNode>, i: int)
    requires
        0 <= i <= s.len(),
        def_scan(s.take(i)) is None,
    ensures
        def_scan(s) is None,
    decreases s.len() - i,
{
    if i < s.len() {
        assert(s.take(i + 1).drop_last() == s.take(i));
        lemma_def_scan_stays_none(s, i + 1);
    } else {
        assert(s.take(i) == s);
    }
}

/// Once reading a message's children has failed, the outcome stays.
proof fn lemma_msg_scan_stays(s: Seq<ParseNode>, i: int)
    requires
        0 <= i <= s.len(),
        !(msg_scan(s.take(i)) is Some && msg_scan(s.take(i))->Some_0 is Ok),
    ensures
        msg_scan(s) == msg_scan(s.take(i)),
    decreases s.len() - i,
{
    if i < s.len() {
        assert(s.take(i + 1).drop_last() == s.take(i));
        lemma_msg_scan_stays(s, i + 1);
    } else {
        assert(s.take(i) == s);
    }
}

/// Reading stops at a tree the grammar does not produce or at the first error.
proof fn lemma_doc_fold_absorbs(st: Option<Result<DocView, Seq<char>>>, s: Seq<ParseNode>, path: Seq<char>)
    requires
        !(st matches Some(Ok(_))),
    ensures
        doc_fold(st, s, path) == st,
    decreases s.len(),
{
    if s.len() > 0 {
        lemma_doc_fold_absorbs(st, s.drop_last(), path);
    }
}

proof fn lemma_doc_fold_prefix_stays(
    st: Option<Result<DocView, Seq<char>>>,
    s: Seq<ParseNode>,
    j: int,
    path: Seq<char>,
)
    requires
        0 <= j <= s.len(),
        !(doc_fold(st, s.take(j), path) matches Some(Ok(_))),
    ensures
        doc_fold(st, s, path) == doc_fold(st, s.take(j), path),
    decreases s.len() - j,
{
    if j < s.len() {
        assert(s.take(j + 1).drop_last() == s.take(j));
        lemma_doc_fold_prefix_stays(st, s, j + 1, path);
    } else {
        assert(s.take(j) == s);
    }
}

proof fn lemma_pairs_fold_prefix_stays(
    st: Option<Result<DocView, Seq<char>>>,
    s: Seq<ParseNode>,
    i: int,
    path: Seq<char>,
)
    requires
        0 <= i <= s.len(),
        !(pairs_fold(st, s.take(i), path) matches Some(Ok(_))),
    ensures
        pairs_fold(st, s, path) == pairs_fold(st, s.take(i), path),
    decreases s.len() - i,
{
    if i < s.len() {
        assert(s.take(i + 1).drop_last() == s.take(i));
        lemma_doc_fold_absorbs(pairs_fold(st, s.take(i), path), s[i].children@, path);
        lemma_pairs_fold_prefix_stays(st, s, i + 1, path);
    } else {
        assert(s.take(i) == s);
    }
}

/// Reads the top-level pairs of a sequence diagram; `None` when the tree is
/// not one the grammar produces.
fn parse_pairs(pairs: &Vec<ParseNode>, source_path: &str) -> (r: Option<
    Result<SeqPumlDocument, SequenceError>,
>)
    ensures
        match (r, document_of(pairs@, source_path@)) {
            (None, None) => true,
            (Some(x), Some(o)) => document_matches(x, o),
            _ => false,
        },
{
    let ghost path = source_path@;
    let ghost init = Some(Ok::<DocView, Seq<char>>(DocView { name: None, statements: Seq::empty() }));
    let ghost ps = pairs@;
    let mut name: Option<String> = None;
    let mut statements: Vec<Statement> = Vec::new();
    let mut i: usize = 0;
    assert(statements_view(statements@) =~= Seq::<StatementView>::empty());
    while i < pairs.len()
        invariant
            i <= pairs.len(),
            ps == pairs@,
            path == source_path@,
            init == Some(Ok::<DocView, Seq<char>>(DocView { name: None, statements: Seq::empty() })),
            pairs_fold(init, ps.take(i as int), path) == Some(
                Ok::<DocView, Seq<char>>(
                    DocView { name: opt_string_view(name), statements: statements_view(statements@) },
                ),
            ),
        decreases pairs.len() - i,
    {
        let pair = &pairs[i];
        let ghost before = pairs_fold(init, ps.take(i as int), path);
        assert(ps.take(i + 1).drop_last() == ps.take(i as int));
        if pair.rule == Rule::SequenceStart {
            let ghost cs = pair.children@;
            let mut j: usize = 0;
            while j < pair.children.len()
                invariant
                    j <= pair.children.len(),
                    cs == pair.children@,
                    ps == pairs@,
                    path == source_path@,
                    init == Some(Ok::<DocView, Seq<char>>(DocView { name: None, statements: Seq::empty() })),
                    i < pairs.len(),
                    pair == &pairs[i as int],
                    pair.rule == Rule::SequenceStart,
                    before == pairs_fold(init, ps.take(i as int), path),
                    doc_fold(before, cs.take(j as int), path) == Some(
                        Ok::<DocView, Seq<char>>(
                            DocView {
                                name: opt_string_view(name),
                                statements: statements_view(statements@),
                            },
                        ),
                    ),
                decreases pair.children.len() - j,
            {
                let inner = &pair.children[j];
                assert(cs.take(j + 1).drop_last() == cs.take(j as int));
                if inner.rule == Rule::Startuml {
                    name = PumlSequenceParser::parse_startuml(inner);
                } else if inner.rule == Rule::SequenceStatement {
                    match PumlSequenceParser::parse_statement(inner, source_path) {
                        None => {
                            proof {
                                lemma_doc_fold_prefix_stays(before, cs, j + 1, path);
                                assert(ps.take(i + 1).drop_last() == ps.take(i as int));
                                assert(ps.take(i + 1).last() == ps[i as int]);
                                lemma_pairs_fold_prefix_stays(init, ps, i + 1, path);
                            }
                            return None;
                        },
                        Some(Err(e)) => {
                            proof {
                                lemma_doc_fold_prefix_stays(before, cs, j + 1, path);
                                assert(ps.take(i + 1).drop_last() == ps.take(i as int));
                                assert(ps.take(i + 1).last() == ps[i as int]);
                                lemma_pairs_fold_prefix_stays(init, ps, i + 1, path);
                            }
                            return Some(Err(e));
                        },
                        Some(Ok(v)) => {
                            let mut v = v;
                            let ghost a = statements@;
                            let ghost b = v@;
                            statements.append(&mut v);
                            assert(statements_view(a + b) =~= statements_view(a) + statements_view(b));
                        },
                    }
                }
                j = j + 1;
            }
            assert(cs.take(pair.children.len() as int) == cs);
        }
        i = i + 1;
    }
    assert(ps.take(pairs.len() as int) == ps);
    Some(Ok(SeqPumlDocument { name, statements }))
}

/// The participant kind that a lower-cased keyword names (`participant`,
/// `actor`, `boundary`, `control`, `entity`, `queue`, `database`,
/// `collections`); `None` for any other text.
pub fn participant_type_from_lowercase(t: &str) -> (r: Option<ParticipantType>)
    ensures
        r == participant_keyword(t@),
{
    if str_eq(t, "participant") {
        Some(ParticipantType::Participant)
    } else if str_eq(t, "actor") {
        Some(ParticipantType::Actor)
    } else if str_eq(t, "boundary") {
        Some(ParticipantType::Boundary)
    } else if str_eq(t, "control") {
        Some(ParticipantType::Control)
    } else if str_eq(t, "entity") {
        Some(ParticipantType::Entity)
    } else if str_eq(t, "queue") {
        Some(ParticipantType::Queue)
    } else if str_eq(t, "database") {
        Some(ParticipantType::Database)
    } else if str_eq(t, "collections") {
        Some(ParticipantType::Collections)
    } else {
        None
    }
}

/// The group kind that a lower-cased keyword names (`opt`, `alt`, `loop`,
/// `par`, `par2`, `break`, `critical`, `else`, `also`, `end`, `group`);
/// `None` for any other text.
pub fn group_type_from_lowercase(t: &str) -> (r: Option<GroupType>)
    ensures
        r == group_keyword(t@),
{
    if str_eq(t, "opt") {
        Some(GroupType::Opt)
    } else if str_eq(t, "alt") {
        Some(GroupType::Alt)
    } else if str_eq(t, "loop") {
        Some(GroupType::Loop)
    } else if str_eq(t, "par") {
        Some(GroupType::Par)
    } else if str_eq(t, "par2") {
        Some(GroupType::Par2)
    } else if str_eq(t, "break") {
        Some(GroupType::Break)
    } else if str_eq(t, "critical") {
        Some(GroupType::Critical)
    } else if str_eq(t, "else") {
        Some(GroupType::Else)
    } else if str_eq(t, "also") {
        Some(GroupType::Also)
    } else if str_eq(t, "end") {
        Some(GroupType::End)
    } else if str_eq(t, "group") {
        Some(GroupType::Group)
    } else {
        None
    }
}

impl PumlSequenceParser {
    /// Builds the document of a sequence diagram from the top-level pairs of
    /// its parse tree; `source_path` is recorded in each statement's location.
    ///
    /// Statements are kept in source order; the name is that of the last
    /// `@startuml` line read. The first statement that cannot be modelled
    /// ends the parse with its error.
    pub fn parse_file(&mut self, source_path: &str, pairs: &Vec<ParseNode>) -> (r: Result<
        SeqPumlDocument,
        SequenceError,
    >)
        requires
            document_of(pairs@, source_path@) is Some,
        ensures
            document_matches(r, document_of(pairs@, source_path@).unwrap()),
    {
        match parse_pairs(pairs, source_path) {
            Some(r) => r,
            None => {
                proof {
                    assert(false);
                }
                Err(SequenceError::InvalidStatement(String::new()))
            },
        }
    }

    /// As `parse_file`, for any tree: `None` when the tree is not one the
    /// sequence grammar produces.
    pub fn parse_file_checked(&mut self, source_path: &str, pairs: &Vec<ParseNode>) -> (r: Option<
        Result<SeqPumlDocument, SequenceError>,
    >)
        ensures
            r is None <==> document_of(pairs@, source_path@) is None,
            r matches Some(x) ==> document_matches(x, document_of(pairs@, source_path@).unwrap()),
    {
        match parse_pairs(pairs, source_path) {
            None => None,
            Some(_) => Some(self.parse_file(source_path, pairs)),
        }
    }
}

/// A quoted name keeps no quotation mark at either end.
pub proof fn lemma_quoted_has_no_outer_quotes(s: Seq<char>)
    ensures
        quoted(s).len() == 0 || (quoted(s)[0] != '"' && quoted(s).last() != '"'),
{
    lemma_strip_char_both_ends(trim(s), '"');
}

/// Participant names are semantic identifiers: a name written in quotation
/// marks is stored without them.
pub proof fn lemma_quoted_name_is_stored_without_quotes(s: Seq<char>)
    requires
        trim(s).len() > 0 && trim(s)[0] == '"',
    ensures
        normalized_name(s).len() == 0 || (normalized_name(s)[0] != '"' && normalized_name(s).last()
            != '"'),
{
    lemma_quoted_has_no_outer_quotes(trim(s));
}

/// A stereotype is stored without its `<<` and `>>` delimiters.
pub proof fn lemma_stereotype_has_no_delimiters(s: Seq<char>)
    ensures
        !starts_with_pattern(stereotype_text(s), "<<"@),
        !">>"@.is_suffix_of(stereotype_text(s)),
{
    reveal_strlit("<<");
    reveal_strlit(">>");
    let a = trim_start_pattern(trim(s), "<<"@);
    lemma_trim_start_pattern(trim(s), "<<"@);
    lemma_trim_end_pattern(a, ">>"@);
    let r = stereotype_text(s);
    if "<<"@.is_prefix_of(r) {
        assert(r[0] == a[0] && r[1] == a[1]);
        assert("<<"@.is_prefix_of(a));
    }
}

pub open spec fn starts_with_pattern(s: Seq<char>, p: Seq<char>) -> bool {
    p.is_prefix_of(s)
}

/// Every statement that carries a source location carries the source path.
pub open spec fn carries_path(v: StatementView, path: Seq<char>) -> bool {
    match v {
        StatementView::Participant(p) => p.loc.0 == path,
        StatementView::Message(m) => m.loc.0 == path,
        StatementView::Group(g) => g.loc.0 == path,
        _ => true,
    }
}

pub open spec fn all_carry_path(s: Seq<StatementView>, path: Seq<char>) -> bool {
    forall|k: int| 0 <= k < s.len() ==> carries_path(#[trigger] s[k], path)
}

pub open spec fn state_carries_path(st: Option<Result<DocView, Seq<char>>>, path: Seq<char>) -> bool {
    st matches Some(Ok(d)) ==> all_carry_path(d.statements, path)
}

proof fn lemma_doc_fold_carries_path(st: Option<Result<DocView, Seq<char>>>, s: Seq<ParseNode>, path: Seq<char>)
    requires
        state_carries_path(st, path),
    ensures
        state_carries_path(doc_fold(st, s, path), path),
    decreases s.len(),
{
    if s.len() > 0 {
        lemma_doc_fold_carries_path(st, s.drop_last(), path);
        let prev = doc_fold(st, s.drop_last(), path);
        let n = s.last();
        if let Some(Ok(d)) = prev {
            if n.rule == Rule::SequenceStatement {
                if let Some(Ok(v)) = statement_of(n, path) {
                    assert(all_carry_path(v, path));
                    let t = d.statements + v;
                    assert forall|k: int| 0 <= k < t.len() implies carries_path(#[trigger] t[k], path) by {
                        if k < d.statements.len() {
                            assert(t[k] == d.statements[k]);
                        } else {
                            assert(t[k] == v[k - d.statements.len()]);
                        }
                    }
                }
            }
        }
    }
}

proof fn lemma_pairs_fold_carries_path(st: Option<Result<DocView, Seq<char>>>, s: Seq<ParseNode>, path: Seq<char>)
    requires
        state_carries_path(st, path),
    ensures
        state_carries_path(pairs_fold(st, s, path), path),
    decreases s.len(),
{
    if s.len() > 0 {
        lemma_pairs_fold_carries_path(st, s.drop_last(), path);
        lemma_doc_fold_carries_path(pairs_fold(st, s.drop_last(), path), s.last().children@, path);
    }
}

/// Source locations are preserved: every participant, message and group of
/// a parsed document is located in the parsed file.
pub proof fn lemma_statements_located_in_source(pairs: Seq<ParseNode>, path: Seq<char>)
    ensures
        document_of(pairs, path) matches Some(Ok(d)) ==> all_carry_path(d.statements, path),
{
    lemma_pairs_fold_carries_path(
        Some(Ok(DocView { name: None, statements: Seq::empty() })),
        pairs,
        path,
    );
}

/// A display name written in quotation marks is stored without them:
/// whichever quoted shape a participant identifier has, its display name
/// neither starts nor ends with `"`.
pub proof fn lemma_quoted_display_name_has_no_quotes(n: ParseNode)
    requires
        n.children.len() > 0,
        n.children@[0].rule == Rule::QuotedDisplay || n.children@[0].rule
            == Rule::QuotedDisplayWithAlias || n.children@[0].rule == Rule::AliasWithQuotedDisplay,
        identifier_of(n) is Some,
    ensures
        ({
            let d = identifier_of(n).unwrap().0;
            d.len() == 0 || (d[0] != '"' && d.last() != '"')
        }),
{
    let c = n.children@[0];
    if c.rule == Rule::QuotedDisplay {
        lemma_quoted_has_no_outer_quotes(c.text@);
    } else if c.rule == Rule::QuotedDisplayWithAlias {
        lemma_quoted_has_no_outer_quotes(trim(c.children@[0].text@));
    } else {
        lemma_quoted_has_no_outer_quotes(trim(c.children@[1].text@));
    }
}

} // verus!
