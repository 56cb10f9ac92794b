use diagram_model::cpp_model::{FunctionDef, FunctionId, FunctionKind, Scope};
use diagram_model::parse_outputs::ParseOutputs;
use diagram_model::context::{ExtractedFunction, FunctionDefinitionKey, VisitContext};

fn extracted(file: &str, offset: u32, name: &str) -> ExtractedFunction {
    ExtractedFunction {
        key: FunctionDefinitionKey {
            source_file: file.to_string(),
            source_offset: offset,
        },
        definition: FunctionDef {
            id: FunctionId {
                scope: Scope::Global,
                name: name.to_string(),
            },
            kind: FunctionKind::Free,
            return_type: None,
            body: vec![],
        },
    }
}

#[test]
fn header_definitions_seen_twice_are_kept_once() {
    let mut outputs = ParseOutputs::new();
    outputs.extend_from_ctx(VisitContext {
        parsed_class_info: vec![],
        functions: vec![
            extracted("inc/a.h", 10, "inline_a"),
            extracted("src/one.cpp", 5, "one"),
        ],
    });
    outputs.extend_from_ctx(VisitContext {
        parsed_class_info: vec![],
        functions: vec![
            extracted("inc/a.h", 10, "inline_a_again"),
            extracted("src/two.cpp", 5, "two"),
            extracted("inc/a.h", 11, "other_in_a"),
        ],
    });
    let names: Vec<&str> = outputs
        .functions
        .values()
        .map(|d| d.id.name.as_str())
        .collect();
    assert_eq!(names, vec!["inline_a", "one", "two", "other_in_a"]);
}

#[test]
fn duplicate_keys_within_one_traversal_keep_the_first() {
    let mut outputs = ParseOutputs::new();
    outputs.extend_from_ctx(VisitContext {
        parsed_class_info: vec![],
        functions: vec![extracted("x.h", 1, "first"), extracted("x.h", 1, "second")],
    });
    assert_eq!(outputs.functions.len(), 1);
    assert_eq!(outputs.functions.values().next().unwrap().id.name, "first");
}
