use diagram_model::parse_tree::{ParseNode, Rule};
use diagram_model::sequence_ast::{
    Arrow, ArrowDecor, ArrowLine, ExternalEndpoint, GroupType, MessageContent, ParticipantType,
    Statement,
};
use diagram_model::sequence_parser::{
    group_type_from_lowercase, participant_type_from_lowercase, PumlSequenceParser, SequenceError,
};

fn node(rule: Rule, text: &str, line: usize, children: Vec<ParseNode>) -> ParseNode {
    ParseNode {
        rule,
        text: text.to_string(),
        line,
        children,
        arrow: None,
    }
}

fn leaf(rule: Rule, text: &str, line: usize) -> ParseNode {
    node(rule, text, line, vec![])
}

fn solid_arrow() -> Arrow {
    Arrow {
        left: None,
        line: ArrowLine {
            raw: "-".to_string(),
        },
        middle: None,
        right: Some(ArrowDecor {
            raw: ">".to_string(),
        }),
    }
}

fn arrow_node(line: usize, outcome: Result<Arrow, String>) -> ParseNode {
    ParseNode {
        rule: Rule::SequenceArrow,
        text: "->".to_string(),
        line,
        children: vec![],
        arrow: Some(outcome),
    }
}

fn statement(line: usize, inner: ParseNode) -> ParseNode {
    node(Rule::SequenceStatement, &inner.text.clone(), line, vec![inner])
}

/// `participant <name>` as the sequence grammar reads it.
fn participant(line: usize, keyword: &str, name: &str) -> ParseNode {
    statement(
        line,
        node(
            Rule::ParticipantDef,
            &format!("{keyword} {name}"),
            line,
            vec![
                leaf(Rule::ParticipantType, keyword, line),
                node(
                    Rule::ParticipantIdentifier,
                    name,
                    line,
                    vec![leaf(Rule::AliasOnly, name, line)],
                ),
            ],
        ),
    )
}

fn message_end(name: &str, line: usize) -> ParseNode {
    node(
        Rule::MessageParticipant,
        name,
        line,
        vec![node(
            Rule::ParticipantRef,
            name,
            line,
            vec![leaf(Rule::Cname, name, line)],
        )],
    )
}

/// `<from> -> <to> : <text>` as the sequence grammar reads it.
fn message(line: usize, from: &str, to: &str, text: &str) -> ParseNode {
    statement(
        line,
        node(
            Rule::Message,
            &format!("{from} -> {to} : {text}"),
            line,
            vec![
                message_end(from, line),
                arrow_node(line, Ok(solid_arrow())),
                message_end(to, line),
                node(
                    Rule::SequenceDescription,
                    &format!(": {text}"),
                    line,
                    vec![leaf(Rule::Other, &format!(" {text}"), line)],
                ),
            ],
        ),
    )
}

fn document(statements: Vec<ParseNode>, last_line: usize) -> Vec<ParseNode> {
    let mut children = vec![leaf(Rule::Startuml, "@startuml", 1)];
    children.extend(statements);
    children.push(leaf(Rule::Other, "@enduml", last_line));
    vec![
        node(Rule::SequenceStart, "", 1, children),
        leaf(Rule::Other, "", last_line),
    ]
}

/// "@startuml\nparticipant Alice\nparticipant Bob\nAlice -> Bob : hello\n@enduml"
fn alice_and_bob() -> Vec<ParseNode> {
    document(
        vec![
            participant(2, "participant", "Alice"),
            participant(3, "participant", "Bob"),
            message(4, "Alice", "Bob", "hello"),
        ],
        5,
    )
}

/// "@startuml\nparticipant A\nparticipant B\nA -> B : call\n@enduml"
fn a_calls_b() -> Vec<ParseNode> {
    document(
        vec![
            participant(2, "participant", "A"),
            participant(3, "participant", "B"),
            message(4, "A", "B", "call"),
        ],
        5,
    )
}

/// A diagram with a known-good participant type must not lose the definition.
#[test]
fn test_valid_participant_is_present_in_output() {
    let mut parser = PumlSequenceParser;
    let doc = parser
        .parse_file("test.puml", &alice_and_bob())
        .expect("valid diagram must parse");

    // 2 participant defs + 1 message = 3 statements
    assert_eq!(
        doc.statements.len(),
        3,
        "all statements must be present; none may be silently dropped"
    );
}

/// Smoke test: the statement count from a two-participant, one-message diagram
/// must be exactly 3 for the sequence parser.
#[test]
fn test_sequence_statement_count() {
    let mut parser = PumlSequenceParser;
    let doc = parser
        .parse_file("t.puml", &a_calls_b())
        .expect("valid input must parse");
    assert_eq!(doc.statements.len(), 3);
}

#[test]
fn sequence_parser_test_source_locations_are_preserved() {
    let mut parser = PumlSequenceParser;
    let doc = parser
        .parse_file("t.puml", &a_calls_b())
        .expect("valid input must parse");

    let expected_file = "t.puml";

    let first_participant = match &doc.statements[0] {
        Statement::ParticipantDef(participant) => participant,
        actual => panic!(
            "expected first statement to be a participant, got {:?}",
            actual
        ),
    };

    assert_eq!(first_participant.source_location.line, 2);
    assert_eq!(first_participant.source_location.file.as_str(), expected_file);

    let message = match &doc.statements[2] {
        Statement::Message(message) => message,
        actual => panic!("expected third statement to be a message, got {:?}", actual),
    };

    assert_eq!(message.source_location.line, 4);
    assert_eq!(message.source_location.file.as_str(), expected_file);
}

#[test]
fn message_fields_are_read_in_order() {
    let doc = PumlSequenceParser
        .parse_file("t.puml", &a_calls_b())
        .unwrap();
    match &doc.statements[2] {
        Statement::Message(m) => {
            let MessageContent::WithTargets { left, arrow, right } = &m.content;
            assert_eq!(left, "A");
            assert_eq!(right, "B");
            assert_eq!(arrow, &solid_arrow());
            assert_eq!(m.description.as_deref(), Some("call"));
            assert_eq!(m.activation_marker, None);
        }
        other => panic!("expected a message, got {:?}", other),
    }
    assert_eq!(doc.name, None);
}

#[test]
fn diagram_name_comes_from_startuml() {
    let mut pairs = a_calls_b();
    pairs[0].children[0] = node(
        Rule::Startuml,
        "@startuml my_diagram",
        1,
        vec![leaf(Rule::PumlName, " my_diagram ", 1)],
    );
    let doc = PumlSequenceParser.parse_file("t.puml", &pairs).unwrap();
    assert_eq!(doc.name.as_deref(), Some("my_diagram"));
}

#[test]
fn participant_kinds_are_case_insensitive() {
    let pairs = document(
        vec![
            participant(2, "ACTOR", "User"),
            participant(3, "Database", "Db"),
            participant(4, "collections", "Items"),
        ],
        5,
    );
    let doc = PumlSequenceParser.parse_file("t.puml", &pairs).unwrap();
    let kinds: Vec<ParticipantType> = doc
        .statements
        .iter()
        .map(|s| match s {
            Statement::ParticipantDef(p) => p.participant_type,
            other => panic!("unexpected {:?}", other),
        })
        .collect();
    assert_eq!(
        kinds,
        vec![
            ParticipantType::Actor,
            ParticipantType::Database,
            ParticipantType::Collections
        ]
    );
}

#[test]
fn unknown_participant_keyword_is_not_a_grammar_tree() {
    let pairs = document(vec![participant(2, "robot", "R")], 3);
    assert_eq!(PumlSequenceParser.parse_file_checked("t.puml", &pairs), None);
    let good = a_calls_b();
    assert!(matches!(
        PumlSequenceParser.parse_file_checked("t.puml", &good),
        Some(Ok(_))
    ));
}

#[test]
fn error_before_a_malformed_statement_is_reported() {
    // The group has no type; the malformed participant after it is never read.
    let group = statement(2, node(Rule::GroupCmd, "alt", 2, vec![]));
    let pairs = document(vec![group, participant(3, "robot", "R")], 4);
    let r = PumlSequenceParser.parse_file_checked("t.puml", &pairs);
    assert_eq!(
        r,
        Some(Err(SequenceError::InvalidStatement(
            "missing group type".to_string()
        )))
    );
}

#[test]
fn identifiers_with_aliases() {
    let ident = |rule: Rule, a: &str, b: &str| {
        statement(
            2,
            node(
                Rule::ParticipantDef,
                "participant",
                2,
                vec![
                    leaf(Rule::ParticipantType, "participant", 2),
                    node(
                        Rule::ParticipantIdentifier,
                        "",
                        2,
                        vec![node(
                            rule,
                            "",
                            2,
                            vec![leaf(Rule::Other, a, 2), leaf(Rule::Other, b, 2)],
                        )],
                    ),
                    leaf(Rule::Stereotype, " <<service>> ", 2),
                ],
            ),
        )
    };
    let pairs = document(
        vec![
            ident(Rule::QuotedDisplayWithAlias, "\"Long Name\"", " L "),
            ident(Rule::DisplayWithAlias, " Plain ", "P"),
            ident(Rule::AliasWithQuotedDisplay, "Q", " \"Quoted Name\" "),
        ],
        3,
    );
    let doc = PumlSequenceParser.parse_file("t.puml", &pairs).unwrap();
    let ids: Vec<(String, Option<String>, Option<String>)> = doc
        .statements
        .iter()
        .map(|s| match s {
            Statement::ParticipantDef(p) => (
                p.identifier.display_name.clone(),
                p.identifier.alias.clone(),
                p.stereotype.clone(),
            ),
            other => panic!("unexpected {:?}", other),
        })
        .collect();
    assert_eq!(
        ids,
        vec![
            (
                "Long Name".to_string(),
                Some("L".to_string()),
                Some("service".to_string())
            ),
            (
                "Plain".to_string(),
                Some("P".to_string()),
                Some("service".to_string())
            ),
            (
                "Quoted Name".to_string(),
                Some("Q".to_string()),
                Some("service".to_string())
            ),
        ]
    );
}

#[test]
fn commands_name_their_participant() {
    let cmd = |rule: Rule, name: &str| {
        statement(
            2,
            node(
                rule,
                "",
                2,
                vec![
                    leaf(Rule::Other, "kw", 2),
                    node(
                        Rule::ParticipantRef,
                        name,
                        2,
                        vec![leaf(Rule::QuotedString, name, 2)],
                    ),
                ],
            ),
        )
    };
    let pairs = document(
        vec![
            cmd(Rule::CreateCmd, "\"New One\""),
            cmd(Rule::ActivateCmd, "X"),
            cmd(Rule::DestroyCmd, "Y"),
            statement(3, node(Rule::DeactivateCmd, "deactivate", 3, vec![])),
        ],
        4,
    );
    let doc = PumlSequenceParser.parse_file("t.puml", &pairs).unwrap();
    match &doc.statements[..] {
        [Statement::CreateCmd(c), Statement::ActivateCmd(a), Statement::DestroyCmd(d), Statement::DeactivateCmd(e)] =>
        {
            assert_eq!(c.participant, "New One");
            assert_eq!(a.participant, "X");
            assert_eq!(d.participant, "Y");
            assert_eq!(e.participant, None);
        }
        other => panic!("unexpected {:?}", other),
    }
}

#[test]
fn missing_participant_errors() {
    for (rule, message) in [
        (Rule::DestroyCmd, "missing participant in destroy"),
        (Rule::CreateCmd, "missing participant in create"),
        (Rule::ActivateCmd, "missing participant in activate"),
    ] {
        let pairs = document(vec![statement(2, node(rule, "", 2, vec![]))], 3);
        let err = PumlSequenceParser.parse_file("t.puml", &pairs).unwrap_err();
        assert_eq!(err, SequenceError::InvalidStatement(message.to_string()));
    }
}

#[test]
fn statement_errors() {
    let empty = document(vec![node(Rule::SequenceStatement, "", 2, vec![])], 3);
    assert_eq!(
        PumlSequenceParser.parse_file("t.puml", &empty).unwrap_err(),
        SequenceError::InvalidStatement("empty statement".to_string())
    );
    let no_type = document(
        vec![statement(
            2,
            node(
                Rule::ParticipantDef,
                "",
                2,
                vec![node(
                    Rule::ParticipantIdentifier,
                    "A",
                    2,
                    vec![leaf(Rule::AliasOnly, "A", 2)],
                )],
            ),
        )],
        3,
    );
    assert_eq!(
        PumlSequenceParser.parse_file("t.puml", &no_type).unwrap_err(),
        SequenceError::InvalidStatement("missing participant type".to_string())
    );
    let no_ident = document(
        vec![statement(
            2,
            node(
                Rule::ParticipantDef,
                "",
                2,
                vec![leaf(Rule::ParticipantType, "queue", 2)],
            ),
        )],
        3,
    );
    assert_eq!(
        PumlSequenceParser
            .parse_file("t.puml", &no_ident)
            .unwrap_err(),
        SequenceError::InvalidStatement("missing participant identifier".to_string())
    );
    let no_arrow = document(
        vec![statement(
            2,
            node(Rule::Message, "", 2, vec![message_end("A", 2)]),
        )],
        3,
    );
    assert_eq!(
        PumlSequenceParser.parse_file("t.puml", &no_arrow).unwrap_err(),
        SequenceError::InvalidStatement("missing arrow in message".to_string())
    );
    let bad_arrow = document(
        vec![statement(
            2,
            node(
                Rule::Message,
                "",
                2,
                vec![message_end("A", 2), arrow_node(2, Err("odd".to_string()))],
            ),
        )],
        3,
    );
    let err = PumlSequenceParser
        .parse_file("t.puml", &bad_arrow)
        .unwrap_err();
    assert_eq!(
        err,
        SequenceError::InvalidStatement("invalid arrow: odd".to_string())
    );
    assert_eq!(
        err.to_string(),
        "invalid sequence statement: invalid arrow: odd"
    );
    assert_eq!(err.error_location(), None);
}

#[test]
fn groups_and_unmodelled_directives() {
    let pairs = document(
        vec![
            statement(
                2,
                node(
                    Rule::GroupCmd,
                    "",
                    2,
                    vec![
                        leaf(Rule::GroupType, "ALT", 2),
                        leaf(Rule::GroupCondition, " ok case ", 2),
                    ],
                ),
            ),
            statement(3, leaf(Rule::Other, "autonumber", 3)),
            statement(4, node(Rule::GroupCmd, "", 4, vec![leaf(Rule::GroupType, "end", 4)])),
        ],
        5,
    );
    let doc = PumlSequenceParser.parse_file("g.puml", &pairs).unwrap();
    assert_eq!(doc.statements.len(), 2);
    match &doc.statements[0] {
        Statement::GroupCmd(g) => {
            assert_eq!(g.group_type, GroupType::Alt);
            assert_eq!(g.text.as_deref(), Some("ok case"));
            assert_eq!(g.source_location.line, 2);
            assert_eq!(g.source_location.file, "g.puml");
        }
        other => panic!("unexpected {:?}", other),
    }
    match &doc.statements[1] {
        Statement::GroupCmd(g) => {
            assert_eq!(g.group_type, GroupType::End);
            assert_eq!(g.text, None);
        }
        other => panic!("unexpected {:?}", other),
    }
}

#[test]
fn activation_marker_and_right_end_after_arrow() {
    let pairs = document(
        vec![statement(
            2,
            node(
                Rule::Message,
                "",
                2,
                vec![
                    arrow_node(2, Ok(solid_arrow())),
                    message_end("B", 2),
                    leaf(Rule::ActivationMarker, "++", 2),
                ],
            ),
        )],
        3,
    );
    let doc = PumlSequenceParser.parse_file("t.puml", &pairs).unwrap();
    match &doc.statements[0] {
        Statement::Message(m) => {
            let MessageContent::WithTargets { left, right, .. } = &m.content;
            assert_eq!(left, "");
            assert_eq!(right, "B");
            assert_eq!(m.activation_marker.as_deref(), Some("++"));
            assert_eq!(m.description, None);
        }
        other => panic!("unexpected {:?}", other),
    }
}

#[test]
fn name_helpers() {
    assert_eq!(
        PumlSequenceParser::extract_quoted_string("  \"\"Bob\"  "),
        "Bob"
    );
    assert_eq!(PumlSequenceParser::extract_quoted_string("\" a \""), " a ");
    assert_eq!(
        PumlSequenceParser::extract_stereotype(" <<<<Service>>>> "),
        "Service"
    );
    assert_eq!(PumlSequenceParser::extract_stereotype("<<a>>>"), "a>");
    assert_eq!(
        PumlSequenceParser::normalize_participant_name("  \"Quoted Bob\" "),
        "Quoted Bob"
    );
    assert_eq!(
        PumlSequenceParser::normalize_participant_name(" Bob\" "),
        "Bob\""
    );
    assert_eq!(
        PumlSequenceParser::normalize_participant_name("\u{3000}Alice\u{a0}"),
        "Alice"
    );
}

#[test]
fn participant_reference_shapes() {
    let r = |n: ParseNode| PumlSequenceParser::extract_participant_ref(&n);
    assert_eq!(r(leaf(Rule::ParticipantRef, "  \"Fallback\"  ", 1)), "Fallback");
    assert_eq!(r(leaf(Rule::MessageParticipant, "X", 1)), "");
    assert_eq!(
        r(node(
            Rule::DisplayWithAlias,
            "",
            1,
            vec![leaf(Rule::Other, "Disp", 1), leaf(Rule::Other, " al ", 1)]
        )),
        "al"
    );
    assert_eq!(
        r(node(
            Rule::AliasWithQuotedDisplay,
            "",
            1,
            vec![leaf(Rule::Other, " al ", 1), leaf(Rule::Other, "\"D\"", 1)]
        )),
        "al"
    );
    assert_eq!(r(leaf(Rule::QuotedDisplayWithAlias, "x", 1)), "");
    assert_eq!(r(leaf(Rule::Other, " plain ", 1)), "plain");
}

#[test]
fn external_endpoint_name_and_markers() {
    assert_eq!(ExternalEndpoint.as_name(), "ExternalEndpoint");
    assert!("[o".parse::<ExternalEndpoint>().is_ok());
    assert!("o[".parse::<ExternalEndpoint>().is_err());
    assert!(ExternalEndpoint::from_marker("x]").is_ok());
}

#[test]
fn base_errors_keep_their_location() {
    let e = SequenceError::Base {
        message: "expected statement".to_string(),
        location: Some((2, 1)),
    };
    assert_eq!(e.error_location(), Some((2, 1)));
    assert_eq!(e.to_string(), "expected statement");
}

#[test]
fn lower_cased_participant_keywords() {
    let expected = [
        ("participant", ParticipantType::Participant),
        ("actor", ParticipantType::Actor),
        ("boundary", ParticipantType::Boundary),
        ("control", ParticipantType::Control),
        ("entity", ParticipantType::Entity),
        ("queue", ParticipantType::Queue),
        ("database", ParticipantType::Database),
        ("collections", ParticipantType::Collections),
    ];
    for (keyword, kind) in expected {
        assert_eq!(participant_type_from_lowercase(keyword), Some(kind));
    }
    assert_eq!(participant_type_from_lowercase("Actor"), None);
    assert_eq!(participant_type_from_lowercase("usecase"), None);
    assert_eq!(participant_type_from_lowercase(""), None);
}

#[test]
fn lower_cased_group_keywords() {
    let expected = [
        ("opt", GroupType::Opt),
        ("alt", GroupType::Alt),
        ("loop", GroupType::Loop),
        ("par", GroupType::Par),
        ("par2", GroupType::Par2),
        ("break", GroupType::Break),
        ("critical", GroupType::Critical),
        ("else", GroupType::Else),
        ("also", GroupType::Also),
        ("end", GroupType::End),
        ("group", GroupType::Group),
    ];
    for (keyword, kind) in expected {
        assert_eq!(group_type_from_lowercase(keyword), Some(kind));
    }
    assert_eq!(group_type_from_lowercase("ALT"), None);
    assert_eq!(group_type_from_lowercase("ref"), None);
}
