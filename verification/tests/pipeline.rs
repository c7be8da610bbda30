//! End-to-end tests: a minimal synthetic spec through all nine fixups.

use k8s_openapi_fixups::ir::{
    ApiSpec, Definition, GroupVersionKind, Operation, Parameter, Property, RefPath, Response,
    Schema, SchemaKind, Type,
};
use k8s_openapi_fixups::model::{KubernetesAction, ParameterLocation, RelativeTo};
use k8s_openapi_fixups::pipeline::run_fixups;

fn plain_schema(kind: SchemaKind) -> Schema {
    Schema {
        description: None,
        kind,
        kubernetes_group_kind_versions: None,
        has_corresponding_list_type: false,
    }
}

fn reference(path: &str) -> Schema {
    plain_schema(SchemaKind::Ref(RefPath {
        path: String::from(path),
        relative_to: RelativeTo::Crate,
        can_be_default: None,
    }))
}

fn optional_query(name: &str) -> Parameter {
    Parameter {
        location: ParameterLocation::Query,
        name: String::from(name),
        required: false,
        schema: reference("io.k8s.some.Type"),
    }
}

fn triple(group: &str, version: &str, kind: &str) -> GroupVersionKind {
    GroupVersionKind {
        group: String::from(group),
        version: String::from(version),
        kind: String::from(kind),
    }
}

fn synthetic_spec() -> ApiSpec {
    let definitions = vec![
        Definition {
            path: String::from("io.k8s.apimachinery.pkg.apis.meta.v1.DeleteOptions"),
            schema: plain_schema(SchemaKind::Properties(vec![Property {
                name: String::from("gracePeriodSeconds"),
                schema: reference("io.k8s.Int"),
                required: false,
            }])),
        },
        Definition {
            path: String::from("io.k8s.apimachinery.pkg.apis.meta.v1.Patch"),
            schema: plain_schema(SchemaKind::Properties(Vec::new())),
        },
        Definition {
            path: String::from("io.k8s.apimachinery.pkg.apis.meta.v1.WatchEvent"),
            schema: Schema {
                description: Some(String::from("An event.")),
                kind: SchemaKind::Properties(vec![Property {
                    name: String::from("object"),
                    schema: reference("io.k8s.apimachinery.pkg.runtime.RawExtension"),
                    required: true,
                }]),
                kubernetes_group_kind_versions: None,
                has_corresponding_list_type: false,
            },
        },
        Definition {
            path: String::from("com.example.v1.Foo"),
            schema: Schema {
                description: None,
                kind: SchemaKind::Properties(Vec::new()),
                kubernetes_group_kind_versions: Some(vec![triple("example.com", "v1", "Foo")]),
                has_corresponding_list_type: false,
            },
        },
        Definition {
            path: String::from("com.example.v1.FooList"),
            schema: Schema {
                description: None,
                kind: SchemaKind::Properties(vec![
                    Property {
                        name: String::from("items"),
                        schema: plain_schema(SchemaKind::Ty(Type::Array {
                            items: Box::new(reference("com.example.v1.Foo")),
                        })),
                        required: true,
                    },
                    Property {
                        name: String::from("metadata"),
                        schema: reference("io.k8s.apimachinery.pkg.apis.meta.v1.ListMeta"),
                        required: false,
                    },
                ]),
                kubernetes_group_kind_versions: Some(vec![triple(
                    "example.com",
                    "v1",
                    "FooList",
                )]),
                has_corresponding_list_type: false,
            },
        },
    ];
    let status = "io.k8s.apimachinery.pkg.apis.meta.v1.Status";
    let operations = vec![
        Operation {
            id: String::from("listExampleV1NamespacedFoo"),
            description: Some(String::from("List Foo.")),
            kubernetes_action: Some(KubernetesAction::List),
            kubernetes_group_kind_version: Some(triple("example.com", "v1", "Foo")),
            parameters: vec![
                optional_query("watch"),
                optional_query("allowWatchBookmarks"),
                optional_query("labelSelector"),
            ],
            responses: vec![Response {
                status: 200,
                schema: reference("com.example.v1.FooList"),
            }],
        },
        Operation {
            id: String::from("deleteExampleV1NamespacedFoo"),
            description: None,
            kubernetes_action: Some(KubernetesAction::Delete),
            kubernetes_group_kind_version: Some(triple("example.com", "v1", "Foo")),
            parameters: vec![
                optional_query("gracePeriodSeconds"),
                Parameter {
                    location: ParameterLocation::Body,
                    name: String::from("body"),
                    required: true,
                    schema: reference("io.k8s.apimachinery.pkg.apis.meta.v1.DeleteOptions"),
                },
            ],
            responses: vec![
                Response {
                    status: 200,
                    schema: reference(status),
                },
                Response {
                    status: 202,
                    schema: reference(status),
                },
            ],
        },
        Operation {
            id: String::from("deleteExampleV1CollectionNamespacedFoo"),
            description: None,
            kubernetes_action: Some(KubernetesAction::DeleteCollection),
            kubernetes_group_kind_version: Some(triple("example.com", "v1", "Foo")),
            parameters: vec![optional_query("continue"), optional_query("limit")],
            responses: vec![Response {
                status: 200,
                schema: reference(status),
            }],
        },
        Operation {
            id: String::from("patchExampleV1NamespacedFoo"),
            description: None,
            kubernetes_action: Some(KubernetesAction::Patch),
            kubernetes_group_kind_version: Some(triple("example.com", "v1", "Foo")),
            parameters: vec![optional_query("pretty")],
            responses: vec![Response {
                status: 200,
                schema: reference("com.example.v1.Foo"),
            }],
        },
    ];
    ApiSpec {
        definitions,
        operations,
    }
}

#[test]
fn pipeline_normalizes_minimal_spec() {
    let mut s = synthetic_spec();
    let before_defs = s.definitions.len();
    let before_ops = s.operations.len();
    assert!(run_fixups(&mut s).is_ok());

    // One list wrapper removed; nine synthesized definitions added: the four
    // optional aggregates, the generic list definition, and the four
    // response markers.
    assert_eq!(s.definitions.len(), before_defs - 1 + 9);
    let paths: Vec<&str> = s.definitions.iter().map(|d| d.path.as_str()).collect();
    for expected in [
        "io.k8s.DeleteOptional",
        "io.k8s.PatchOptional",
        "io.k8s.ListOptional",
        "io.k8s.WatchOptional",
        "io.k8s.List",
        "io.k8s.DeleteResponse",
        "io.k8s.ListResponse",
        "io.k8s.PatchResponse",
        "io.k8s.WatchResponse",
    ] {
        assert!(paths.contains(&expected), "missing {}", expected);
    }
    assert!(!paths.contains(&"com.example.v1.FooList"));

    // One watch operation synthesized.
    assert_eq!(s.operations.len(), before_ops + 1);
    let watch = s
        .operations
        .iter()
        .find(|o| o.id == "watchExampleV1NamespacedFoo")
        .expect("synthesized watch operation");
    assert_eq!(watch.kubernetes_action, Some(KubernetesAction::Watch));
    match &watch.responses[0].schema.kind {
        SchemaKind::Ref(rp) => {
            assert_eq!(rp.path, "io.k8s.apimachinery.pkg.apis.meta.v1.WatchEvent")
        }
        other => panic!("unexpected kind: {:?}", other),
    }

    // The item definition is marked, and the list operation's response was
    // rewritten into a list-reference.
    let foo = s
        .definitions
        .iter()
        .find(|d| d.path == "com.example.v1.Foo")
        .expect("item definition");
    assert!(foo.schema.has_corresponding_list_type);
    let list_op = s
        .operations
        .iter()
        .find(|o| o.id == "listExampleV1NamespacedFoo")
        .expect("list operation");
    match &list_op.responses[0].schema.kind {
        SchemaKind::Ty(Type::ListRef { items }) => match &**items {
            SchemaKind::Ref(rp) => assert_eq!(rp.path, "com.example.v1.Foo"),
            other => panic!("unexpected items: {:?}", other),
        },
        other => panic!("unexpected kind: {:?}", other),
    }
    assert_eq!(
        list_op.description.as_deref(),
        Some("List Foo.\n\nThis operation only supports listing all items of this type.\n")
    );
}

#[test]
fn pipeline_is_deterministic() {
    // Two runs from equal fresh inputs produce byte-for-byte identical
    // normalized output.
    let mut a = synthetic_spec();
    let mut b = synthetic_spec();
    assert!(run_fixups(&mut a).is_ok());
    assert!(run_fixups(&mut b).is_ok());
    assert_eq!(a, b);
}

#[test]
fn pipeline_stops_at_first_failure() {
    let mut s = synthetic_spec();
    s.definitions.remove(0);
    let e = run_fixups(&mut s).unwrap_err();
    assert_eq!(
        e.message,
        "could not find io.k8s.apimachinery.pkg.apis.meta.v1.DeleteOptions"
    );
}
