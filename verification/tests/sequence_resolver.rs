use diagram_model::sequence_ast::{
    Arrow, ArrowDecor, ArrowLine, Message, MessageContent, ParticipantDef, ParticipantIdentifier,
    ParticipantType as SyntaxParticipantType, SeqPumlDocument, Statement,
};
use diagram_model::sequence_resolver::{
    is_special_endpoint_marker, participant_reference_name, LogicParticipantType,
    SequenceResolver, SequenceResolverError,
};
use diagram_model::source_location::SourceLocation;

fn solid_arrow() -> Arrow {
    Arrow {
        left: None,
        line: ArrowLine {
            raw: "-".to_string(),
        },
        middle: None,
        right: Some(ArrowDecor {
            raw: ">".to_string(),
        }),
    }
}

fn dashed_arrow() -> Arrow {
    Arrow {
        left: None,
        line: ArrowLine {
            raw: "--".to_string(),
        },
        middle: None,
        right: Some(ArrowDecor {
            raw: ">".to_string(),
        }),
    }
}

fn dummy_source_location() -> SourceLocation {
    SourceLocation::new("test.puml", 0)
}

fn make_call(from: &str, to: &str, label: &str) -> Statement {
    Statement::Message(Message {
        content: MessageContent::WithTargets {
            left: from.to_string(),
            arrow: solid_arrow(),
            right: to.to_string(),
        },
        activation_marker: None,
        description: Some(label.to_string()),
        source_location: dummy_source_location(),
    })
}

fn make_return(from: &str, to: &str, label: &str) -> Statement {
    Statement::Message(Message {
        content: MessageContent::WithTargets {
            left: from.to_string(),
            arrow: dashed_arrow(),
            right: to.to_string(),
        },
        activation_marker: None,
        description: Some(label.to_string()),
        source_location: dummy_source_location(),
    })
}

fn make_participant(name: &str) -> Statement {
    Statement::ParticipantDef(ParticipantDef {
        is_create: false,
        participant_type: SyntaxParticipantType::Participant,
        identifier: ParticipantIdentifier {
            display_name: name.to_string(),
            alias: None,
        },
        stereotype: None,
        source_location: dummy_source_location(),
    })
}

fn make_participant_with_alias(display_name: &str, alias: &str) -> Statement {
    Statement::ParticipantDef(ParticipantDef {
        is_create: false,
        participant_type: SyntaxParticipantType::Participant,
        identifier: ParticipantIdentifier {
            display_name: display_name.to_string(),
            alias: Some(alias.to_string()),
        },
        stereotype: None,
        source_location: dummy_source_location(),
    })
}

/// When participants are declared, all message targets must be among them.
#[test]
fn test_declared_participants_pass_validation() {
    let stmts = vec![
        make_participant("A"),
        make_participant("B"),
        make_call("A", "B", "doWork"),
        make_return("B", "A", "result"),
    ];
    let mut resolver = SequenceResolver;
    let doc = SeqPumlDocument {
        name: Some("valid".to_string()),
        statements: stmts,
    };
    assert!(resolver.resolve(&doc).is_ok());
}

#[test]
fn test_aliased_participant_reference_passes_validation() {
    let stmts = vec![
        make_participant("A"),
        make_participant_with_alias("Display B", "B"),
        make_call("A", "B", "doWork"),
    ];
    let mut resolver = SequenceResolver;
    let doc = SeqPumlDocument {
        name: Some("valid_alias".to_string()),
        statements: stmts,
    };
    assert!(resolver.resolve(&doc).is_ok());
}

#[test]
fn test_aliased_participant_display_name_reference_raises_error() {
    let stmts = vec![
        make_participant("A"),
        make_participant_with_alias("Display B", "B"),
        make_call("A", "Display B", "doWork"),
    ];
    let mut resolver = SequenceResolver;
    let doc = SeqPumlDocument {
        name: Some("invalid_display_reference".to_string()),
        statements: stmts,
    };
    let err = resolver.resolve(&doc).unwrap_err();
    let msg = err.to_string();
    assert!(msg.contains("Display B"));
    assert!(msg.contains("callee"));
}

/// An undeclared callee should cause an error.
#[test]
fn test_undeclared_callee_raises_error() {
    let stmts = vec![make_participant("A"), make_call("A", "B", "doWork")];
    let mut resolver = SequenceResolver;
    let doc = SeqPumlDocument {
        name: Some("bad_callee".to_string()),
        statements: stmts,
    };
    let err = resolver.resolve(&doc).unwrap_err();
    let msg = err.to_string();
    assert!(
        msg.contains("B"),
        "error should name the undeclared participant"
    );
    assert!(msg.contains("callee"), "error should indicate the role");
}

/// An undeclared caller should cause an error.
#[test]
fn test_undeclared_caller_raises_error() {
    let stmts = vec![make_participant("B"), make_call("A", "B", "doWork")];
    let mut resolver = SequenceResolver;
    let doc = SeqPumlDocument {
        name: Some("bad_caller".to_string()),
        statements: stmts,
    };
    let err = resolver.resolve(&doc).unwrap_err();
    let msg = err.to_string();
    assert!(
        msg.contains("A"),
        "error should name the undeclared participant"
    );
    assert!(msg.contains("caller"), "error should indicate the role");
}

/// When no participants are declared, messages are allowed freely (no validation).
#[test]
fn test_no_participants_declared_skips_validation() {
    let stmts = vec![make_call("X", "Y", "hello")];
    let mut resolver = SequenceResolver;
    let doc = SeqPumlDocument {
        name: Some("implicit".to_string()),
        statements: stmts,
    };
    assert!(resolver.resolve(&doc).is_ok());
}

#[test]
fn resolver_error_message_is_exact() {
    let err = SequenceResolverError::UndeclaredParticipant {
        name: "B".to_string(),
        role: "callee",
    };
    assert_eq!(err.to_string(), "callee 'B' is not declared as a participant");
}

#[test]
fn resolver_collects_participants_in_order_with_their_kind() {
    let mut actor = make_participant_with_alias("The User", "U");
    if let Statement::ParticipantDef(p) = &mut actor {
        p.participant_type = SyntaxParticipantType::Actor;
        p.stereotype = Some("human".to_string());
        p.source_location = SourceLocation::new("d.puml", 7);
    }
    let doc = SeqPumlDocument {
        name: Some("kinds".to_string()),
        statements: vec![
            make_participant("A"),
            make_call("U", "A", "go"),
            actor,
        ],
    };
    let tree = SequenceResolver.resolve(&doc).expect("all ends are declared");
    assert_eq!(tree.name.as_deref(), Some("kinds"));
    assert_eq!(tree.participants.len(), 2);
    assert_eq!(tree.participants[0].display_name, "A");
    assert_eq!(
        tree.participants[0].participant_type,
        LogicParticipantType::Participant
    );
    assert_eq!(tree.participants[1].display_name, "The User");
    assert_eq!(tree.participants[1].alias.as_deref(), Some("U"));
    assert_eq!(
        tree.participants[1].participant_type,
        LogicParticipantType::Actor
    );
    assert_eq!(tree.participants[1].stereotype.as_deref(), Some("human"));
    assert_eq!(tree.participants[1].source_location, SourceLocation::new("d.puml", 7));
}

#[test]
fn resolver_reports_first_undeclared_end_in_order() {
    let doc = SeqPumlDocument {
        name: None,
        statements: vec![
            make_participant("A"),
            make_call("A", "Q", "first"),
            make_call("R", "A", "second"),
        ],
    };
    let err = SequenceResolver.resolve(&doc).unwrap_err();
    assert_eq!(
        err,
        SequenceResolverError::UndeclaredParticipant {
            name: "Q".to_string(),
            role: "callee",
        }
    );
    let doc = SeqPumlDocument {
        name: None,
        statements: vec![make_participant("A"), make_call("P", "Q", "both")],
    };
    let err = SequenceResolver.resolve(&doc).unwrap_err();
    assert_eq!(
        err,
        SequenceResolverError::UndeclaredParticipant {
            name: "P".to_string(),
            role: "caller",
        }
    );
}

#[test]
fn resolver_accepts_external_endpoints_and_empty_ends() {
    let doc = SeqPumlDocument {
        name: None,
        statements: vec![
            make_participant("A"),
            make_call("[", "A", "in"),
            make_call("A", "x]", "out"),
            make_call("", "A", "anonymous"),
        ],
    };
    assert!(SequenceResolver.resolve(&doc).is_ok());
    let doc = SeqPumlDocument {
        name: None,
        statements: vec![make_participant("A"), make_call("A", "[[", "bad")],
    };
    assert!(SequenceResolver.resolve(&doc).is_err());
}

#[test]
fn resolver_gives_the_same_answer_twice() {
    let doc = SeqPumlDocument {
        name: Some("again".to_string()),
        statements: vec![make_participant("A"), make_call("A", "B", "x")],
    };
    let mut resolver = SequenceResolver;
    let first = resolver.resolve(&doc);
    let second = resolver.resolve(&doc);
    assert_eq!(first, second);
}

#[test]
fn endpoint_markers_are_exactly_the_six() {
    for m in ["[", "[o", "[x", "]", "o]", "x]"] {
        assert!(is_special_endpoint_marker(m));
    }
    for m in ["", "[ ", "o", "x", "[]", "]o"] {
        assert!(!is_special_endpoint_marker(m));
    }
}

#[test]
fn reference_name_prefers_alias() {
    let with_alias = ParticipantIdentifier {
        display_name: "Long Name".to_string(),
        alias: Some("L".to_string()),
    };
    let without = ParticipantIdentifier {
        display_name: "Long Name".to_string(),
        alias: None,
    };
    assert_eq!(participant_reference_name(&with_alias), "L");
    assert_eq!(participant_reference_name(&without), "Long Name");
}

/// An empty diagram resolves, keeping its name and declaring no participant.
#[test]
fn test_empty_document_yields_empty_tree() {
    let mut resolver = SequenceResolver;
    let doc = SeqPumlDocument {
        name: Some("empty".to_string()),
        statements: vec![],
    };
    let tree = resolver.resolve(&doc).expect("must not fail");
    assert!(tree.participants.is_empty());
    assert_eq!(tree.name.as_deref(), Some("empty"));
}
