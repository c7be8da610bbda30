//! Scenario tests for the individual fixup passes.

use k8s_openapi_fixups::error::FixupError;
use k8s_openapi_fixups::fixup_delete::{
    create_delete_optional, remove_delete_collection_operations_query_parameters,
    remove_delete_operations_query_parameters,
};
use k8s_openapi_fixups::fixup_patch::{create_patch_optional, patch};
use k8s_openapi_fixups::fixup_responses::response_types;
use k8s_openapi_fixups::fixup_watch::{separate_watch_from_list_operations, watch_event};
use k8s_openapi_fixups::ir::{
    ApiSpec, Definition, GroupVersionKind, Operation, OptionalProperty, Parameter, Property,
    RefPath, Response, Schema, SchemaKind, Type,
};
use k8s_openapi_fixups::model::{KubernetesAction, ParameterLocation, RelativeTo};

fn schema(kind: SchemaKind) -> Schema {
    Schema {
        description: None,
        kind,
        kubernetes_group_kind_versions: None,
        has_corresponding_list_type: false,
    }
}

fn ref_schema(path: &str) -> Schema {
    schema(SchemaKind::Ref(RefPath {
        path: String::from(path),
        relative_to: RelativeTo::Crate,
        can_be_default: None,
    }))
}

fn prop(name: &str, s: Schema, required: bool) -> Property {
    Property {
        name: String::from(name),
        schema: s,
        required,
    }
}

fn query_param(name: &str, required: bool) -> Parameter {
    Parameter {
        location: ParameterLocation::Query,
        name: String::from(name),
        required,
        schema: ref_schema("io.k8s.some.Type"),
    }
}

fn operation(id: &str, action: Option<KubernetesAction>, parameters: Vec<Parameter>) -> Operation {
    Operation {
        id: String::from(id),
        description: None,
        kubernetes_action: action,
        kubernetes_group_kind_version: None,
        parameters,
        responses: Vec::new(),
    }
}

fn definition(path: &str, s: Schema) -> Definition {
    Definition {
        path: String::from(path),
        schema: s,
    }
}

fn err_message(e: FixupError) -> String {
    e.message
}

#[test]
fn create_delete_optional_copies_properties() {
    let mut s = ApiSpec {
        definitions: vec![definition(
            "io.k8s.apimachinery.pkg.apis.meta.v1.DeleteOptions",
            schema(SchemaKind::Properties(vec![
                prop("gracePeriodSeconds", ref_schema("io.k8s.Int"), true),
                prop("propagationPolicy", ref_schema("io.k8s.Str"), false),
            ])),
        )],
        operations: Vec::new(),
    };
    assert!(create_delete_optional(&mut s).is_ok());
    assert_eq!(s.definitions.len(), 2);
    let added = &s.definitions[1];
    assert_eq!(added.path, "io.k8s.DeleteOptional");
    assert_eq!(
        added.schema.description.as_deref(),
        Some("Common parameters for all delete and delete-collection operations.")
    );
    match &added.schema.kind {
        SchemaKind::Ty(Type::DeleteOptional(entries)) => {
            assert_eq!(entries.len(), 2);
            assert_eq!(entries[0].name, "gracePeriodSeconds");
            assert_eq!(entries[1].name, "propagationPolicy");
            assert_eq!(entries[1].schema, ref_schema("io.k8s.Str"));
        }
        other => panic!("unexpected kind: {:?}", other),
    }
}

#[test]
fn create_delete_optional_missing_definition_fails() {
    let mut s = ApiSpec {
        definitions: Vec::new(),
        operations: Vec::new(),
    };
    let e = create_delete_optional(&mut s).unwrap_err();
    assert_eq!(
        err_message(e),
        "could not find io.k8s.apimachinery.pkg.apis.meta.v1.DeleteOptions"
    );
}

#[test]
fn create_delete_optional_wrong_shape_fails() {
    let mut s = ApiSpec {
        definitions: vec![definition(
            "io.k8s.apimachinery.pkg.apis.meta.v1.DeleteOptions",
            ref_schema("io.k8s.Other"),
        )],
        operations: Vec::new(),
    };
    let e = create_delete_optional(&mut s).unwrap_err();
    assert_eq!(
        err_message(e),
        "io.k8s.apimachinery.pkg.apis.meta.v1.DeleteOptions is not a SchemaKind::Properties"
    );
}

#[test]
fn patch_marks_the_definition() {
    let mut s = ApiSpec {
        definitions: vec![definition(
            "io.k8s.apimachinery.pkg.apis.meta.v1.Patch",
            schema(SchemaKind::Properties(Vec::new())),
        )],
        operations: Vec::new(),
    };
    assert!(patch(&mut s).is_ok());
    assert_eq!(
        s.definitions[0].schema.kind,
        SchemaKind::Ty(Type::Patch)
    );
}

#[test]
fn patch_missing_definition_fails() {
    let mut s = ApiSpec {
        definitions: Vec::new(),
        operations: Vec::new(),
    };
    let e = patch(&mut s).unwrap_err();
    assert_eq!(err_message(e), "never applied Patch override");
}

#[test]
fn patch_optional_mismatched_operations_fail() {
    // Two patch operations with optional parameter name sets {a, b} and
    // {a}: the pass must fail naming the second operation and the missing b.
    let mut s = ApiSpec {
        definitions: Vec::new(),
        operations: vec![
            operation(
                "patchFirst",
                Some(KubernetesAction::Patch),
                vec![query_param("a", false), query_param("b", false)],
            ),
            operation(
                "patchSecond",
                Some(KubernetesAction::Patch),
                vec![query_param("a", false)],
            ),
        ],
    };
    let e = create_patch_optional(&mut s).unwrap_err();
    assert_eq!(
        err_message(e),
        "operation patchSecond is a patch operation but doesn't have a b parameter"
    );
}

#[test]
fn patch_optional_unexpected_parameter_fails() {
    let mut s = ApiSpec {
        definitions: Vec::new(),
        operations: vec![
            operation(
                "patchFirst",
                Some(KubernetesAction::Patch),
                vec![query_param("a", false)],
            ),
            operation(
                "patchSecond",
                Some(KubernetesAction::Patch),
                vec![query_param("a", false), query_param("c", false)],
            ),
        ],
    };
    let e = create_patch_optional(&mut s).unwrap_err();
    assert_eq!(
        err_message(e),
        "operation patchSecond contains unexpected optional parameter c"
    );
}

#[test]
fn patch_optional_collapses_parameters() {
    let mut s = ApiSpec {
        definitions: Vec::new(),
        operations: vec![operation(
            "patchOnly",
            Some(KubernetesAction::Patch),
            vec![
                Parameter {
                    location: ParameterLocation::Path,
                    name: String::from("name"),
                    required: true,
                    schema: ref_schema("io.k8s.Str"),
                },
                query_param("pretty", false),
            ],
        )],
    };
    assert!(create_patch_optional(&mut s).is_ok());
    let op = &s.operations[0];
    assert_eq!(op.parameters.len(), 2);
    assert_eq!(op.parameters[0].name, "name");
    let shared = &op.parameters[1];
    assert_eq!(shared.name, "optional");
    assert!(shared.required);
    assert_eq!(shared.location, ParameterLocation::Query);
    match &shared.schema.kind {
        SchemaKind::Ref(rp) => assert_eq!(rp.path, "io.k8s.PatchOptional"),
        other => panic!("unexpected kind: {:?}", other),
    }
    let added = &s.definitions[0];
    assert_eq!(added.path, "io.k8s.PatchOptional");
    match &added.schema.kind {
        SchemaKind::Ty(Type::PatchOptional(entries)) => {
            assert_eq!(entries.len(), 1);
            assert_eq!(entries[0].name, "pretty");
        }
        other => panic!("unexpected kind: {:?}", other),
    }
}

#[test]
fn patch_optional_without_patch_operations_fails() {
    let mut s = ApiSpec {
        definitions: Vec::new(),
        operations: vec![operation("getThing", Some(KubernetesAction::Get), Vec::new())],
    };
    let e = create_patch_optional(&mut s).unwrap_err();
    assert_eq!(err_message(e), "never found any patch operations");
}

#[test]
fn delete_collection_parameters_are_replaced() {
    let mut s = ApiSpec {
        definitions: Vec::new(),
        operations: vec![operation(
            "deleteCollectionThing",
            Some(KubernetesAction::DeleteCollection),
            vec![
                Parameter {
                    location: ParameterLocation::Path,
                    name: String::from("namespace"),
                    required: true,
                    schema: ref_schema("io.k8s.Str"),
                },
                query_param("watch", false),
            ],
        )],
    };
    assert!(remove_delete_collection_operations_query_parameters(&mut s).is_ok());
    let params = &s.operations[0].parameters;
    assert_eq!(params.len(), 3);
    assert_eq!(params[0].name, "namespace");
    assert_eq!(params[1].name, "deleteOptional");
    assert_eq!(params[1].location, ParameterLocation::Body);
    match &params[1].schema.kind {
        SchemaKind::Ref(rp) => assert_eq!(rp.path, "io.k8s.DeleteOptional"),
        other => panic!("unexpected kind: {:?}", other),
    }
    assert_eq!(params[2].name, "listOptional");
    assert_eq!(params[2].location, ParameterLocation::Query);
    match &params[2].schema.kind {
        SchemaKind::Ref(rp) => assert_eq!(rp.path, "io.k8s.ListOptional"),
        other => panic!("unexpected kind: {:?}", other),
    }
}

#[test]
fn delete_collection_without_operations_fails() {
    let mut s = ApiSpec {
        definitions: Vec::new(),
        operations: Vec::new(),
    };
    let e = remove_delete_collection_operations_query_parameters(&mut s).unwrap_err();
    assert_eq!(
        err_message(e),
        "never applied remove-delete-collection-operations-query-parameters fixup"
    );
}

#[test]
fn delete_parameters_are_replaced() {
    let mut s = ApiSpec {
        definitions: Vec::new(),
        operations: vec![operation(
            "deleteThing",
            Some(KubernetesAction::Delete),
            vec![
                Parameter {
                    location: ParameterLocation::Path,
                    name: String::from("name"),
                    required: true,
                    schema: ref_schema("io.k8s.Str"),
                },
                query_param("gracePeriodSeconds", false),
                Parameter {
                    location: ParameterLocation::Body,
                    name: String::from("body"),
                    required: true,
                    schema: ref_schema("io.k8s.apimachinery.pkg.apis.meta.v1.DeleteOptions"),
                },
            ],
        )],
    };
    assert!(remove_delete_operations_query_parameters(&mut s).is_ok());
    let params = &s.operations[0].parameters;
    assert_eq!(params.len(), 2);
    assert_eq!(params[0].name, "name");
    assert_eq!(params[1].name, "optional");
    assert_eq!(params[1].location, ParameterLocation::Body);
    match &params[1].schema.kind {
        SchemaKind::Ref(rp) => assert_eq!(rp.path, "io.k8s.DeleteOptional"),
        other => panic!("unexpected kind: {:?}", other),
    }
}

#[test]
fn delete_with_wrong_body_parameter_fails() {
    let mut s = ApiSpec {
        definitions: Vec::new(),
        operations: vec![operation(
            "deleteThing",
            Some(KubernetesAction::Delete),
            vec![Parameter {
                location: ParameterLocation::Body,
                name: String::from("body"),
                required: true,
                schema: ref_schema("io.k8s.SomethingElse"),
            }],
        )],
    };
    let e = remove_delete_operations_query_parameters(&mut s).unwrap_err();
    assert_eq!(
        err_message(e),
        "DELETE operation deleteThing does not have a DeleteOptions body parameter"
    );
}

#[test]
fn separate_watch_builds_both_aggregates() {
    // A list operation with optional parameters {watch, allowWatchBookmarks,
    // continue, limit, labelSelector}: the list aggregate excludes the
    // bookmark and watch flags, the watch aggregate excludes the pagination
    // cursor, the page limit and the watch flag.
    let mut s = ApiSpec {
        definitions: Vec::new(),
        operations: vec![operation(
            "listFooV1NamespacedFoo",
            Some(KubernetesAction::List),
            vec![
                query_param("watch", false),
                query_param("allowWatchBookmarks", false),
                query_param("continue", false),
                query_param("limit", false),
                query_param("labelSelector", false),
            ],
        )],
    };
    assert!(separate_watch_from_list_operations(&mut s).is_ok());
    let list_optional = &s.definitions[0];
    assert_eq!(list_optional.path, "io.k8s.ListOptional");
    match &list_optional.schema.kind {
        SchemaKind::Ty(Type::ListOptional(entries)) => {
            let names: Vec<&str> = entries.iter().map(|e| e.name.as_str()).collect();
            assert_eq!(names, vec!["continue", "labelSelector", "limit"]);
        }
        other => panic!("unexpected kind: {:?}", other),
    }
    let watch_optional = &s.definitions[1];
    assert_eq!(watch_optional.path, "io.k8s.WatchOptional");
    match &watch_optional.schema.kind {
        SchemaKind::Ty(Type::WatchOptional(entries)) => {
            let names: Vec<&str> = entries.iter().map(|e| e.name.as_str()).collect();
            assert_eq!(names, vec!["allowWatchBookmarks", "labelSelector"]);
        }
        other => panic!("unexpected kind: {:?}", other),
    }
    assert_eq!(s.operations.len(), 2);
    assert_eq!(s.operations[0].id, "listFooV1NamespacedFoo");
    assert_eq!(s.operations[1].id, "watchFooV1NamespacedFoo");
    assert_eq!(
        s.operations[1].kubernetes_action,
        Some(KubernetesAction::Watch)
    );
}

#[test]
fn separate_watch_derives_for_all_namespaces_ids() {
    // listFooV1ForAllNamespaces -> watch id watchFooV1ForAllNamespaces and
    // watch-list id watchFooV1ListForAllNamespaces: the suffix is inserted
    // before "ForAllNamespaces", not appended after it.
    let mut s = ApiSpec {
        definitions: Vec::new(),
        operations: vec![
            operation(
                "listFooV1ForAllNamespaces",
                Some(KubernetesAction::List),
                vec![query_param("watch", false)],
            ),
            operation(
                "watchFooV1ForAllNamespaces",
                Some(KubernetesAction::Watch),
                Vec::new(),
            ),
            operation(
                "watchFooV1ListForAllNamespaces",
                Some(KubernetesAction::WatchList),
                Vec::new(),
            ),
        ],
    };
    assert!(separate_watch_from_list_operations(&mut s).is_ok());
    // Both hand-written watch operations are removed and one watch
    // operation is re-synthesized.
    assert_eq!(s.operations.len(), 2);
    assert_eq!(s.operations[0].id, "listFooV1ForAllNamespaces");
    assert_eq!(s.operations[1].id, "watchFooV1ForAllNamespaces");
}

#[test]
fn separate_watch_rejects_stray_watch_operations() {
    let mut s = ApiSpec {
        definitions: Vec::new(),
        operations: vec![
            operation(
                "listFooV1NamespacedFoo",
                Some(KubernetesAction::List),
                vec![query_param("watch", false)],
            ),
            operation(
                "watchBarV1NamespacedBar",
                Some(KubernetesAction::Watch),
                Vec::new(),
            ),
        ],
    };
    let e = separate_watch_from_list_operations(&mut s).unwrap_err();
    assert_eq!(
        err_message(e),
        "found a watch operation that wasn't synthesized from a list operation: watchBarV1NamespacedBar"
    );
}

#[test]
fn separate_watch_without_list_operations_fails() {
    let mut s = ApiSpec {
        definitions: Vec::new(),
        operations: Vec::new(),
    };
    let e = separate_watch_from_list_operations(&mut s).unwrap_err();
    assert_eq!(err_message(e), "never found any list-watch operations");
}

#[test]
fn separate_watch_rejects_bad_list_id() {
    let mut s = ApiSpec {
        definitions: Vec::new(),
        operations: vec![operation(
            "getFooV1NamespacedFoo",
            Some(KubernetesAction::List),
            Vec::new(),
        )],
    };
    let e = separate_watch_from_list_operations(&mut s).unwrap_err();
    assert_eq!(
        err_message(e),
        "operation getFooV1NamespacedFoo is a list operation but doesn't start with \"list\""
    );
}

#[test]
fn watch_event_folds_object_property() {
    let mut s = ApiSpec {
        definitions: vec![Definition {
            path: String::from("io.k8s.apimachinery.pkg.apis.meta.v1.WatchEvent"),
            schema: Schema {
                description: Some(String::from("An event.")),
                kind: SchemaKind::Properties(vec![Property {
                    name: String::from("object"),
                    schema: Schema {
                        description: Some(String::from("The object.")),
                        kind: SchemaKind::Ref(RefPath {
                            path: String::from("io.k8s.apimachinery.pkg.runtime.RawExtension"),
                            relative_to: RelativeTo::Crate,
                            can_be_default: None,
                        }),
                        kubernetes_group_kind_versions: None,
                        has_corresponding_list_type: false,
                    },
                    required: true,
                }]),
                kubernetes_group_kind_versions: None,
                has_corresponding_list_type: false,
            },
        }],
        operations: Vec::new(),
    };
    assert!(watch_event(&mut s).is_ok());
    let d = &s.definitions[0];
    assert_eq!(
        d.schema.description.as_deref(),
        Some("An event.\n\nThe object.\n")
    );
    match &d.schema.kind {
        SchemaKind::Ty(Type::WatchEvent(rp)) => {
            assert_eq!(rp.path, "io.k8s.apimachinery.pkg.runtime.RawExtension");
        }
        other => panic!("unexpected kind: {:?}", other),
    }
}

#[test]
fn watch_event_without_required_object_fails() {
    let mut s = ApiSpec {
        definitions: vec![definition(
            "io.k8s.apimachinery.pkg.apis.meta.v1.WatchEvent",
            schema(SchemaKind::Properties(vec![prop(
                "object",
                ref_schema("io.k8s.apimachinery.pkg.runtime.RawExtension"),
                false,
            )])),
        )],
        operations: Vec::new(),
    };
    let e = watch_event(&mut s).unwrap_err();
    assert_eq!(err_message(e), "never applied WatchEvent override");
}

fn status_response(code: u16, path: &str) -> Response {
    Response {
        status: code,
        schema: ref_schema(path),
    }
}

#[test]
fn response_types_rejects_unexpected_delete_codes() {
    // A delete operation with status codes {200, 204} instead of {200} or
    // {200, 202} fails, naming the operation.
    let mut s = ApiSpec {
        definitions: Vec::new(),
        operations: vec![Operation {
            id: String::from("deleteOddThing"),
            description: None,
            kubernetes_action: Some(KubernetesAction::Delete),
            kubernetes_group_kind_version: None,
            parameters: Vec::new(),
            responses: vec![
                status_response(200, "io.k8s.apimachinery.pkg.apis.meta.v1.Status"),
                status_response(204, "io.k8s.apimachinery.pkg.apis.meta.v1.Status"),
            ],
        }],
    };
    let e = response_types(&mut s).unwrap_err();
    assert_eq!(
        err_message(e),
        "operation deleteOddThing does not have the expected response status codes of a delete operation: [200, 204]"
    );
}

#[test]
fn response_types_installs_markers() {
    let mut s = ApiSpec {
        definitions: Vec::new(),
        operations: vec![Operation {
            id: String::from("deleteThing"),
            description: None,
            kubernetes_action: Some(KubernetesAction::Delete),
            kubernetes_group_kind_version: None,
            parameters: Vec::new(),
            responses: vec![
                status_response(200, "io.k8s.apimachinery.pkg.apis.meta.v1.Status"),
                status_response(202, "io.k8s.apimachinery.pkg.apis.meta.v1.Status"),
            ],
        }],
    };
    assert!(response_types(&mut s).is_ok());
    let paths: Vec<&str> = s.definitions.iter().map(|d| d.path.as_str()).collect();
    assert_eq!(
        paths,
        vec![
            "io.k8s.DeleteResponse",
            "io.k8s.ListResponse",
            "io.k8s.PatchResponse",
            "io.k8s.WatchResponse"
        ]
    );
    assert_eq!(
        s.definitions[0].schema.kind,
        SchemaKind::Ty(Type::DeleteResponse)
    );
    assert_eq!(
        s.definitions[0].schema.description.as_deref(),
        Some("The common response type for all delete API operations and delete-collection API operations.")
    );
}

fn list_wrapper_definitions() -> Vec<Definition> {
    vec![
        Definition {
            path: String::from("com.example.v1.Foo"),
            schema: Schema {
                description: None,
                kind: SchemaKind::Properties(Vec::new()),
                kubernetes_group_kind_versions: Some(vec![GroupVersionKind {
                    group: String::from("example.com"),
                    version: String::from("v1"),
                    kind: String::from("Foo"),
                }]),
                has_corresponding_list_type: false,
            },
        },
        Definition {
            path: String::from("com.example.v1.FooList"),
            schema: Schema {
                description: None,
                kind: SchemaKind::Properties(vec![
                    Property {
                        name: String::from("items"),
                        schema: schema(SchemaKind::Ty(Type::Array {
                            items: Box::new(ref_schema("com.example.v1.Foo")),
                        })),
                        required: true,
                    },
                    prop(
                        "metadata",
                        ref_schema("io.k8s.apimachinery.pkg.apis.meta.v1.ListMeta"),
                        false,
                    ),
                ]),
                kubernetes_group_kind_versions: Some(vec![GroupVersionKind {
                    group: String::from("example.com"),
                    version: String::from("v1"),
                    kind: String::from("FooList"),
                }]),
                has_corresponding_list_type: false,
            },
        },
        definition(
            "com.example.v1.Holder",
            schema(SchemaKind::Properties(vec![prop(
                "foos",
                ref_schema("com.example.v1.FooList"),
                false,
            )])),
        ),
    ]
}

#[test]
fn list_replaces_wrappers_and_rewrites_references() {
    let mut s = ApiSpec {
        definitions: list_wrapper_definitions(),
        operations: vec![Operation {
            id: String::from("listExampleV1Foo"),
            description: None,
            kubernetes_action: Some(KubernetesAction::List),
            kubernetes_group_kind_version: None,
            parameters: Vec::new(),
            responses: vec![status_response(200, "com.example.v1.FooList")],
        }],
    };
    assert!(k8s_openapi_fixups::fixup_list::list(&mut s).is_ok());
    let paths: Vec<&str> = s.definitions.iter().map(|d| d.path.as_str()).collect();
    assert_eq!(
        paths,
        vec!["com.example.v1.Foo", "com.example.v1.Holder", "io.k8s.List"]
    );
    assert!(s.definitions[0].schema.has_corresponding_list_type);
    match &s.definitions[1].schema.kind {
        SchemaKind::Properties(props) => match &props[0].schema.kind {
            SchemaKind::Ty(Type::ListRef { items }) => match &**items {
                SchemaKind::Ref(rp) => assert_eq!(rp.path, "com.example.v1.Foo"),
                other => panic!("unexpected items: {:?}", other),
            },
            other => panic!("unexpected kind: {:?}", other),
        },
        other => panic!("unexpected kind: {:?}", other),
    }
    match &s.operations[0].responses[0].schema.kind {
        SchemaKind::Ty(Type::ListRef { items }) => match &**items {
            SchemaKind::Ref(rp) => assert_eq!(rp.path, "com.example.v1.Foo"),
            other => panic!("unexpected items: {:?}", other),
        },
        other => panic!("unexpected kind: {:?}", other),
    }
    match &s.definitions[2].schema.kind {
        SchemaKind::Ty(Type::ListDef { metadata }) => match &**metadata {
            SchemaKind::Ref(rp) => {
                assert_eq!(rp.path, "io.k8s.apimachinery.pkg.apis.meta.v1.ListMeta")
            }
            other => panic!("unexpected metadata: {:?}", other),
        },
        other => panic!("unexpected kind: {:?}", other),
    }
}

#[test]
fn list_rejects_diverging_candidate_shapes() {
    // A second candidate whose property set differs from the first
    // candidate's snapshot fails the pipeline.
    let mut defs = list_wrapper_definitions();
    defs.push(Definition {
        path: String::from("com.example.v1.BarList"),
        schema: Schema {
            description: None,
            kind: SchemaKind::Properties(vec![
                Property {
                    name: String::from("items"),
                    schema: schema(SchemaKind::Ty(Type::Array {
                        items: Box::new(ref_schema("com.example.v1.Bar")),
                    })),
                    required: true,
                },
                prop(
                    "metadata",
                    ref_schema("io.k8s.apimachinery.pkg.apis.meta.v1.ListMeta"),
                    false,
                ),
                prop("extra", ref_schema("io.k8s.Str"), false),
            ]),
            kubernetes_group_kind_versions: Some(vec![GroupVersionKind {
                group: String::from("example.com"),
                version: String::from("v1"),
                kind: String::from("BarList"),
            }]),
            has_corresponding_list_type: false,
        },
    });
    defs.push(Definition {
        path: String::from("com.example.v1.Bar"),
        schema: Schema {
            description: None,
            kind: SchemaKind::Properties(Vec::new()),
            kubernetes_group_kind_versions: Some(vec![GroupVersionKind {
                group: String::from("example.com"),
                version: String::from("v1"),
                kind: String::from("Bar"),
            }]),
            has_corresponding_list_type: false,
        },
    });
    let mut s = ApiSpec {
        definitions: defs,
        operations: Vec::new(),
    };
    let e = k8s_openapi_fixups::fixup_list::list(&mut s).unwrap_err();
    assert_eq!(
        err_message(e),
        "Definition com.example.v1.BarList looks like a list but doesn't have the expected properties: [items, metadata, extra]"
    );
}

#[test]
fn list_without_candidates_fails() {
    let mut s = ApiSpec {
        definitions: vec![definition("com.example.v1.Foo", schema(SchemaKind::Properties(Vec::new())))],
        operations: Vec::new(),
    };
    let e = k8s_openapi_fixups::fixup_list::list(&mut s).unwrap_err();
    assert_eq!(err_message(e), "did not find any types that looked like a list");
}

#[test]
fn list_rejects_mismatched_group_version_kind() {
    let mut defs = list_wrapper_definitions();
    // Break the item's kind so that FooList no longer corresponds to it.
    defs[0].schema.kubernetes_group_kind_versions = Some(vec![GroupVersionKind {
        group: String::from("example.com"),
        version: String::from("v2"),
        kind: String::from("Foo"),
    }]);
    let mut s = ApiSpec {
        definitions: defs,
        operations: Vec::new(),
    };
    let e = k8s_openapi_fixups::fixup_list::list(&mut s).unwrap_err();
    assert_eq!(
        err_message(e),
        "definition com.example.v1.FooList looks like a list but its group-version-kind does not correspond to its item's group-version-kind"
    );
}

#[test]
fn delete_optional_entry_drops_required_flags() {
    // Every copied entry is optional by convention: the aggregate keeps the
    // source order and schemas but no required flags.
    let mut s = ApiSpec {
        definitions: vec![definition(
            "io.k8s.apimachinery.pkg.apis.meta.v1.DeleteOptions",
            schema(SchemaKind::Properties(vec![prop(
                "preconditions",
                ref_schema("io.k8s.Preconditions"),
                true,
            )])),
        )],
        operations: Vec::new(),
    };
    assert!(create_delete_optional(&mut s).is_ok());
    match &s.definitions[1].schema.kind {
        SchemaKind::Ty(Type::DeleteOptional(entries)) => {
            assert_eq!(
                entries[0],
                OptionalProperty {
                    name: String::from("preconditions"),
                    schema: ref_schema("io.k8s.Preconditions"),
                }
            );
        }
        other => panic!("unexpected kind: {:?}", other),
    }
}

#[test]
fn list_rejects_non_array_items() {
    let mut s = ApiSpec {
        definitions: vec![definition(
            "com.example.v1.FooList",
            schema(SchemaKind::Properties(vec![
                prop("items", ref_schema("com.example.v1.Foo"), true),
                prop(
                    "metadata",
                    ref_schema("io.k8s.apimachinery.pkg.apis.meta.v1.ListMeta"),
                    false,
                ),
            ])),
        )],
        operations: Vec::new(),
    };
    let e = k8s_openapi_fixups::fixup_list::list(&mut s).unwrap_err();
    assert_eq!(
        err_message(e),
        "definition com.example.v1.FooList looks like a list but doesn't have an items property"
    );
}

#[test]
fn list_rejects_missing_item_definition() {
    let mut defs = list_wrapper_definitions();
    defs.remove(0);
    let mut s = ApiSpec {
        definitions: defs,
        operations: Vec::new(),
    };
    let e = k8s_openapi_fixups::fixup_list::list(&mut s).unwrap_err();
    assert_eq!(
        err_message(e),
        "definition com.example.v1.FooList looks like a list but its item's definition does not exist in the spec"
    );
}

#[test]
fn response_types_rejects_wrong_watch_body() {
    let mut s = ApiSpec {
        definitions: Vec::new(),
        operations: vec![Operation {
            id: String::from("watchThing"),
            description: None,
            kubernetes_action: Some(KubernetesAction::Watch),
            kubernetes_group_kind_version: None,
            parameters: Vec::new(),
            responses: vec![status_response(200, "io.k8s.SomethingElse")],
        }],
    };
    let e = response_types(&mut s).unwrap_err();
    assert_eq!(
        err_message(e),
        "operation watchThing does not have the expected response schema of a watch operation for status code 200: Ref(io.k8s.SomethingElse)"
    );
}

#[test]
fn response_types_requires_list_group_version_kind() {
    let mut s = ApiSpec {
        definitions: Vec::new(),
        operations: vec![Operation {
            id: String::from("listThing"),
            description: None,
            kubernetes_action: Some(KubernetesAction::List),
            kubernetes_group_kind_version: None,
            parameters: Vec::new(),
            responses: vec![status_response(200, "com.example.v1.FooList")],
        }],
    };
    let e = response_types(&mut s).unwrap_err();
    assert_eq!(
        err_message(e),
        "operation listThing looks like a list but doesn't have a group-version-kind"
    );
}

#[test]
fn watch_event_missing_definition_fails() {
    let mut s = ApiSpec {
        definitions: Vec::new(),
        operations: Vec::new(),
    };
    let e = watch_event(&mut s).unwrap_err();
    assert_eq!(err_message(e), "never applied WatchEvent override");
}

#[test]
fn delete_without_body_parameter_fails() {
    // A delete operation with no body parameter at all is a failure, named,
    // even when another delete operation is well-shaped.
    let mut s = ApiSpec {
        definitions: Vec::new(),
        operations: vec![
            operation(
                "deleteGoodThing",
                Some(KubernetesAction::Delete),
                vec![Parameter {
                    location: ParameterLocation::Body,
                    name: String::from("body"),
                    required: true,
                    schema: ref_schema("io.k8s.apimachinery.pkg.apis.meta.v1.DeleteOptions"),
                }],
            ),
            operation(
                "deleteBareThing",
                Some(KubernetesAction::Delete),
                vec![query_param("gracePeriodSeconds", false)],
            ),
        ],
    };
    let e = remove_delete_operations_query_parameters(&mut s).unwrap_err();
    assert_eq!(
        err_message(e),
        "DELETE operation deleteBareThing does not have a DeleteOptions body parameter"
    );
}

#[test]
fn response_types_orders_the_offending_codes() {
    // The offending status-code set is reported sorted ascending.
    let mut s = ApiSpec {
        definitions: Vec::new(),
        operations: vec![Operation {
            id: String::from("deleteOther"),
            description: None,
            kubernetes_action: Some(KubernetesAction::Delete),
            kubernetes_group_kind_version: None,
            parameters: Vec::new(),
            responses: vec![
                status_response(204, "io.k8s.apimachinery.pkg.apis.meta.v1.Status"),
                status_response(200, "io.k8s.apimachinery.pkg.apis.meta.v1.Status"),
            ],
        }],
    };
    let e = response_types(&mut s).unwrap_err();
    assert_eq!(
        err_message(e),
        "operation deleteOther does not have the expected response status codes of a delete operation: [200, 204]"
    );
}

#[test]
fn patch_optional_accepts_empty_optional_set() {
    // Patch operations exist but expose no optional parameters: the pass
    // succeeds and installs an empty aggregate.
    let mut s = ApiSpec {
        definitions: Vec::new(),
        operations: vec![operation(
            "patchPlain",
            Some(KubernetesAction::Patch),
            vec![Parameter {
                location: ParameterLocation::Path,
                name: String::from("name"),
                required: true,
                schema: ref_schema("io.k8s.Str"),
            }],
        )],
    };
    assert!(create_patch_optional(&mut s).is_ok());
    match &s.definitions[0].schema.kind {
        SchemaKind::Ty(Type::PatchOptional(entries)) => assert!(entries.is_empty()),
        other => panic!("unexpected kind: {:?}", other),
    }
    assert_eq!(s.operations[0].parameters.len(), 2);
    assert_eq!(s.operations[0].parameters[1].name, "optional");
}

#[test]
fn patch_optional_aggregate_is_sorted_by_name() {
    // The aggregate iterates in ascending name order, whatever order the
    // parameters appeared in.
    let mut s = ApiSpec {
        definitions: Vec::new(),
        operations: vec![operation(
            "patchSorted",
            Some(KubernetesAction::Patch),
            vec![query_param("b", false), query_param("a", false)],
        )],
    };
    assert!(create_patch_optional(&mut s).is_ok());
    match &s.definitions[0].schema.kind {
        SchemaKind::Ty(Type::PatchOptional(entries)) => {
            let names: Vec<&str> = entries.iter().map(|e| e.name.as_str()).collect();
            assert_eq!(names, vec!["a", "b"]);
        }
        other => panic!("unexpected kind: {:?}", other),
    }
}

#[test]
fn response_types_names_delete_collection_category() {
    // A delete-collection operation may only answer 200; the failure names
    // the category and the offending sorted code set.
    let mut s = ApiSpec {
        definitions: Vec::new(),
        operations: vec![Operation {
            id: String::from("deleteCollectionThing"),
            description: None,
            kubernetes_action: Some(KubernetesAction::DeleteCollection),
            kubernetes_group_kind_version: None,
            parameters: Vec::new(),
            responses: vec![
                status_response(200, "io.k8s.apimachinery.pkg.apis.meta.v1.Status"),
                status_response(202, "io.k8s.apimachinery.pkg.apis.meta.v1.Status"),
            ],
        }],
    };
    let e = response_types(&mut s).unwrap_err();
    assert_eq!(
        err_message(e),
        "operation deleteCollectionThing does not have the expected response status codes of a delete-collection operation: [200, 202]"
    );
}
