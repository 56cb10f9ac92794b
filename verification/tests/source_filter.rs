use diagram_model::source_filter::{
    is_declared_in_external_or_system_header, is_excluded_namespace,
    is_external_dependency_path, is_external_or_system_path, is_system_header_path,
};

#[test]
fn classifies_system_header_paths() {
    for path in [
        "/usr/include/c++/v1/vector",
        "/usr/local/include/library/header.hpp",
        "/opt/sdk/include/api.hpp",
        "/toolchains/gcc/include/c++/vector",
    ] {
        assert!(is_system_header_path(path), "expected system path: {path}");
        assert!(is_external_or_system_path(path));
    }
}

#[test]
fn classifies_bazel_external_dependency_paths() {
    for path in [
        "/workspace/external/flatbuffers/include/flatbuffers.h",
        "external/flatbuffers/include/flatbuffers.h",
        "/workspace/bazel-out/k8-fastbuild/bin/_virtual_includes/runtime/flatbuffers.h",
    ] {
        assert!(
            is_external_dependency_path(path),
            "expected external dependency path: {path}"
        );
        assert!(is_external_or_system_path(path));
    }
}

#[test]
fn keeps_workspace_sources_in_the_model() {
    let path = "cpp/application/include/application/car.h";
    assert!(!is_system_header_path(path));
    assert!(!is_external_dependency_path(path));
    assert!(!is_external_or_system_path(path));
}

#[test]
fn excludes_standard_library_namespaces_even_for_workspace_sources() {
    assert!(is_excluded_namespace(Some("std")));
    assert!(is_excluded_namespace(Some("std::__1")));
    assert!(is_excluded_namespace(Some("__gnu_cxx")));
    assert!(is_excluded_namespace(Some("__gnu_cxx::__detail")));
}

#[test]
fn keeps_project_namespaces_in_the_model() {
    assert!(!is_excluded_namespace(None));
    assert!(!is_excluded_namespace(Some("score::mw::com::impl")));
    assert!(!is_excluded_namespace(Some("amsr")));
}

#[test]
fn system_prefix_must_start_the_path() {
    assert!(!is_system_header_path("/home/usr/include/x.h"));
    assert!(is_system_header_path("/usr/includes/x.h"));
    assert!(!is_system_header_path("opt/x.h"));
}

#[test]
fn namespace_prefix_is_not_enough_to_exclude() {
    assert!(!is_excluded_namespace(Some("stdx")));
    assert!(!is_excluded_namespace(Some("app::std")));
    assert!(!is_excluded_namespace(Some("")));
    assert!(is_excluded_namespace(Some("std::")));
    assert!(!is_excluded_namespace(Some("std:x")));
}

#[test]
fn nested_excluded_namespace_stays_excluded() {
    assert!(is_excluded_namespace(Some("std::chrono::detail")));
    assert!(is_excluded_namespace(Some("__gnu_cxx::a::b")));
}

#[test]
fn declaration_location_decides_header_exclusion() {
    assert!(!is_declared_in_external_or_system_header(None));
    assert!(is_declared_in_external_or_system_header(Some("/usr/include/string")));
    assert!(!is_declared_in_external_or_system_header(Some("src/app.h")));
}

#[test]
fn bazel_out_alone_is_not_external() {
    assert!(!is_external_dependency_path("/ws/bazel-out/k8/bin/app.h"));
    assert!(is_external_dependency_path("/ws/bazel-out/k8/external/x.h"));
}
