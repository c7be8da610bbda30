//! The delete-related passes: copying the well-known delete-options
//! definition into an all-optional aggregate, and normalizing the parameter
//! lists of delete and delete-collection operations.

use vstd::prelude::*;

use crate::error::FixupError;
use crate::ir::{ApiSpec, OptionalProperty, Schema, SchemaKind, Type};
use crate::ir::{lemma_view_optional_properties, lemma_view_properties, view_optional_properties,
    view_parameters, view_properties};
use crate::lookup::{filter_path_params, find_definition};
use crate::model::{ApiSpecView, KubernetesAction, OperationView, OptionalPropertyView,
    ParameterLocation, ParameterView, PropertyView, SchemaKindView, SchemaView, TypeView, def_insert, def_present,
    def_schema, has_body_param, body_param_index, lemma_def_index, path_params};
use crate::names::{delete_optional_description, delete_optional_name, delete_optional_path,
    delete_options_path, delete_parameter_description, list_optional_name, list_optional_path,
    list_parameter_description, optional_name, optional_parameter_description};
use crate::synth::{make_ref_param, synthesized_ref_param};
use crate::text::{str_copy, str_eq};

verus! {

/// The entries of the delete-options definition with every required flag
/// dropped, in order.
pub open spec fn all_optional(props: Seq<PropertyView>) -> Seq<OptionalPropertyView> {
    Seq::new(props.len(), |i: int| OptionalPropertyView { name: props[i].name, schema: props[i].schema })
}

/// The synthesized all-optional delete aggregate definition.
pub open spec fn delete_optional_entry(props: Seq<PropertyView>) -> SchemaView {
    SchemaView {
        description: Some(delete_optional_description()),
        kind: SchemaKindView::Ty(TypeView::DeleteOptional(all_optional(props))),
        kubernetes_group_kind_versions: None,
        has_corresponding_list_type: false,
    }
}

/// Whether the well-known delete-options definition exists and is
/// `Properties`-shaped.
pub open spec fn can_create_delete_optional(s: ApiSpecView) -> bool {
    &&& def_present(s.definitions, delete_options_path())
    &&& def_schema(s.definitions, delete_options_path()).kind is Properties
}

/// The spec with the all-optional delete aggregate added; the original
/// delete-options definition is kept.
pub open spec fn apply_create_delete_optional(s: ApiSpecView) -> ApiSpecView {
    ApiSpecView {
        definitions: def_insert(
            s.definitions,
            delete_optional_path(),
            delete_optional_entry(
                def_schema(s.definitions, delete_options_path()).kind->Properties_0,
            ),
        ),
        operations: s.operations,
    }
}

/// Copy the well-known delete-options definition to a new all-optional
/// aggregate definition, usable as the common parameter of delete and
/// delete-collection operations.
pub fn create_delete_optional(s: &mut ApiSpec) -> (r: Result<(), FixupError>)
    ensures
        r is Ok <==> can_create_delete_optional(old(s)@),
        r is Ok ==> final(s)@ == apply_create_delete_optional(old(s)@),
        r is Err ==> final(s)@ == old(s)@,
        r matches Err(e) ==> e.message@ == (if !def_present(
            old(s)@.definitions,
            delete_options_path(),
        ) {
            "could not find io.k8s.apimachinery.pkg.apis.meta.v1.DeleteOptions"@
        } else {
            "io.k8s.apimachinery.pkg.apis.meta.v1.DeleteOptions is not a SchemaKind::Properties"@
        }),
{
    let found = find_definition(
        &s.definitions,
        "io.k8s.apimachinery.pkg.apis.meta.v1.DeleteOptions",
    );
    let i = match found {
        Some(i) => i,
        None => {
            return Err(
                FixupError::new("could not find io.k8s.apimachinery.pkg.apis.meta.v1.DeleteOptions"),
            );
        },
    };
    proof {
        lemma_def_index(old(s)@.definitions, delete_options_path());
    }
    let props = match &s.definitions[i].schema.kind {
        SchemaKind::Properties(props) => props,
        _ => {
            return Err(
                FixupError::new(
                    "io.k8s.apimachinery.pkg.apis.meta.v1.DeleteOptions is not a SchemaKind::Properties",
                ),
            );
        },
    };
    let ghost propsv = view_properties(props@);
    proof {
        lemma_view_properties(props@);
        assert(def_schema(old(s)@.definitions, delete_options_path()).kind
            == SchemaKindView::Properties(propsv));
    }
    let mut opts: Vec<OptionalProperty> = Vec::new();
    let mut j: usize = 0;
    while j < props.len()
        invariant
            j <= props@.len(),
            propsv.len() == props@.len(),
            forall|k: int| 0 <= k < props@.len() ==> propsv[k] == crate::ir::view_property(props@[k]),
            opts@.len() == j,
            forall|k: int|
                0 <= k < j ==> opts@[k]@ == (OptionalPropertyView {
                    name: propsv[k].name,
                    schema: propsv[k].schema,
                }),
        decreases props@.len() - j,
    {
        let p = &props[j];
        opts.push(OptionalProperty { name: p.name.clone(), schema: p.schema.deep_clone() });
        j = j + 1;
    }
    proof {
        lemma_view_optional_properties(opts@);
        assert(view_optional_properties(opts@) =~= all_optional(propsv));
    }
    let entry = Schema {
        description: Some(
            str_copy("Common parameters for all delete and delete-collection operations."),
        ),
        kind: SchemaKind::Ty(Type::DeleteOptional(opts)),
        kubernetes_group_kind_versions: None,
        has_corresponding_list_type: false,
    };
    proof {
        assert(entry@ == delete_optional_entry(propsv));
    }
    crate::lookup::insert_definition(&mut s.definitions, str_copy("io.k8s.DeleteOptional"), entry);
    proof {
        assert(s@ =~= apply_create_delete_optional(old(s)@));
    }
    Ok(())
}

/// Whether the operation is a delete-collection operation.
pub open spec fn is_delete_collection(op: OperationView) -> bool {
    op.kubernetes_action == Some(KubernetesAction::DeleteCollection)
}

/// The rewritten parameter list of a delete-collection operation: the path
/// parameters, one body parameter referencing the delete aggregate, and one
/// query parameter referencing the list aggregate.
pub open spec fn delete_collection_params(params: Seq<ParameterView>) -> Seq<ParameterView> {
    path_params(params).push(
        synthesized_ref_param(
            ParameterLocation::Body,
            delete_optional_name(),
            delete_parameter_description(),
            delete_optional_path(),
        ),
    ).push(
        synthesized_ref_param(
            ParameterLocation::Query,
            list_optional_name(),
            list_parameter_description(),
            list_optional_path(),
        ),
    )
}

/// Whether at least one delete-collection operation exists.
pub open spec fn can_remove_delete_collection(s: ApiSpecView) -> bool {
    exists|i: int| 0 <= i < s.operations.len() && is_delete_collection(#[trigger] s.operations[i])
}

/// Every delete-collection operation with its parameters rewritten;
/// everything else unchanged.
pub open spec fn apply_remove_delete_collection(s: ApiSpecView) -> ApiSpecView {
    ApiSpecView {
        definitions: s.definitions,
        operations: Seq::new(
            s.operations.len(),
            |i: int|
                if is_delete_collection(s.operations[i]) {
                    OperationView {
                        parameters: delete_collection_params(s.operations[i].parameters),
                        ..s.operations[i]
                    }
                } else {
                    s.operations[i]
                },
        ),
    }
}

/// Replace the query parameters of every delete-collection operation with
/// one delete-aggregate body parameter and one list-aggregate query
/// parameter, keeping only the path parameters.
pub fn remove_delete_collection_operations_query_parameters(s: &mut ApiSpec) -> (r: Result<
    (),
    FixupError,
>)
    ensures
        r is Ok <==> can_remove_delete_collection(old(s)@),
        r is Ok ==> final(s)@ == apply_remove_delete_collection(old(s)@),
        r is Err ==> final(s)@ == old(s)@,
        r matches Err(e) ==> e.message@
            == "never applied remove-delete-collection-operations-query-parameters fixup"@,
{
    let ghost target = apply_remove_delete_collection(old(s)@);
    let mut found = false;
    let mut i: usize = 0;
    while i < s.operations.len()
        invariant
            i <= s.operations@.len(),
            s.operations@.len() == old(s).operations@.len(),
            s.definitions@ == old(s).definitions@,
            target == apply_remove_delete_collection(old(s)@),
            target.operations.len() == old(s)@.operations.len(),
            forall|j: int| i <= j < s.operations@.len()
                ==> s.operations@[j] == old(s).operations@[j],
            forall|j: int| 0 <= j < i ==> #[trigger] s.operations@[j]@ == target.operations[j],
            found <==> exists|j: int|
                0 <= j < i && is_delete_collection(#[trigger] old(s)@.operations[j]),
        decreases s.operations@.len() - i,
    {
        let ghost oldop = old(s)@.operations[i as int];
        proof {
            assert(oldop == old(s).operations@[i as int]@);
        }
        let is_dc = match s.operations[i].kubernetes_action {
            Some(KubernetesAction::DeleteCollection) => true,
            _ => false,
        };
        if is_dc {
            let ghost pv = oldop.parameters;
            let mut new_params = filter_path_params(&s.operations[i].parameters);
            new_params.push(
                make_ref_param(
                    ParameterLocation::Body,
                    "deleteOptional",
                    "Delete options. Use `Default::default()` to not pass any.",
                    "io.k8s.DeleteOptional",
                ),
            );
            new_params.push(
                make_ref_param(
                    ParameterLocation::Query,
                    "listOptional",
                    "List options. Use `Default::default()` to not pass any.",
                    "io.k8s.ListOptional",
                ),
            );
            proof {
                assert(view_parameters(new_params@) =~= delete_collection_params(pv));
            }
            let op = &mut s.operations[i];
            op.parameters = new_params;
            found = true;
            proof {
                assert(s.operations@[i as int]@ == (OperationView {
                    parameters: delete_collection_params(pv),
                    ..oldop
                }));
                assert(s.operations@[i as int]@ == target.operations[i as int]);
            }
        } else {
            proof {
                assert(s.operations@[i as int]@ == target.operations[i as int]);
            }
        }
        i = i + 1;
    }
    if found {
        proof {
            assert(s@ =~= target);
        }
        Ok(())
    } else {
        proof {
            assert(s@ =~= old(s)@);
        }
        Err(FixupError::new("never applied remove-delete-collection-operations-query-parameters fixup"))
    }
}

/// Whether the operation is a delete operation.
pub open spec fn is_delete(op: OperationView) -> bool {
    op.kubernetes_action == Some(KubernetesAction::Delete)
}

/// Whether the operation's first body parameter references the well-known
/// delete-options definition.
pub open spec fn delete_body_ok(op: OperationView) -> bool {
    let k = op.parameters[body_param_index(op.parameters)].schema.kind;
    k is Ref && k->Ref_0.path == delete_options_path()
}

/// The rewritten parameter list of a delete operation: the path parameters
/// and one body parameter referencing the delete aggregate.
pub open spec fn delete_params(params: Seq<ParameterView>) -> Seq<ParameterView> {
    path_params(params).push(
        synthesized_ref_param(
            ParameterLocation::Body,
            optional_name(),
            optional_parameter_description(),
            delete_optional_path(),
        ),
    )
}

/// Whether a delete operation is acceptable: it carries a body parameter,
/// and its first body parameter references the well-known delete-options
/// definition.
pub open spec fn delete_op_ok(op: OperationView) -> bool {
    has_body_param(op.parameters) && delete_body_ok(op)
}

/// Whether some delete operation exists and every delete operation carries
/// a body parameter referencing the well-known delete-options definition.
pub open spec fn can_remove_delete(s: ApiSpecView) -> bool {
    &&& exists|i: int| 0 <= i < s.operations.len() && is_delete(#[trigger] s.operations[i])
    &&& forall|i: int|
        0 <= i < s.operations.len() && is_delete(#[trigger] s.operations[i]) ==> delete_op_ok(
            s.operations[i],
        )
}

/// Every delete operation rewritten; everything else unchanged.
pub open spec fn apply_remove_delete(s: ApiSpecView) -> ApiSpecView {
    ApiSpecView {
        definitions: s.definitions,
        operations: Seq::new(
            s.operations.len(),
            |i: int|
                if is_delete(s.operations[i]) {
                    OperationView {
                        parameters: delete_params(s.operations[i].parameters),
                        ..s.operations[i]
                    }
                } else {
                    s.operations[i]
                },
        ),
    }
}

/// Replace the duplicated query parameters of every delete operation with a
/// single body parameter referencing the delete aggregate, after checking
/// that the operation carries a body parameter referencing the well-known
/// delete-options definition; one that does not fails the pass, named.  On
/// failure, already-rewritten operations keep their new shape; the caller
/// discards the spec.
pub fn remove_delete_operations_query_parameters(s: &mut ApiSpec) -> (r: Result<(), FixupError>)
    ensures
        r is Ok <==> can_remove_delete(old(s)@),
        r is Ok ==> final(s)@ == apply_remove_delete(old(s)@),
        r matches Err(e) ==> ({
            ||| ((forall|i: int|
                0 <= i < old(s)@.operations.len() ==> !is_delete(#[trigger] old(s)@.operations[i]))
                && e.message@ == "never applied remove-delete-operations-query-parameters fixup"@)
            ||| (exists|i: int|
                0 <= i < old(s)@.operations.len() && is_delete(#[trigger] old(s)@.operations[i])
                    && !delete_op_ok(old(s)@.operations[i]) && crate::text::text_contains(
                    e.message@,
                    old(s)@.operations[i].id,
                ))
        }),
{
    let ghost target = apply_remove_delete(old(s)@);
    let mut found = false;
    let mut i: usize = 0;
    while i < s.operations.len()
        invariant
            i <= s.operations@.len(),
            s.operations@.len() == old(s).operations@.len(),
            s.definitions@ == old(s).definitions@,
            target == apply_remove_delete(old(s)@),
            target.operations.len() == old(s)@.operations.len(),
            forall|j: int| i <= j < s.operations@.len()
                ==> s.operations@[j] == old(s).operations@[j],
            forall|j: int| 0 <= j < i ==> #[trigger] s.operations@[j]@ == target.operations[j],
            forall|j: int|
                0 <= j < i && is_delete(#[trigger] old(s)@.operations[j]) ==> delete_op_ok(
                    old(s)@.operations[j],
                ),
            found <==> exists|j: int|
                0 <= j < i && is_delete(#[trigger] old(s)@.operations[j]),
        decreases s.operations@.len() - i,
    {
        let ghost oldop = old(s)@.operations[i as int];
        proof {
            assert(oldop == old(s).operations@[i as int]@);
        }
        let is_del = match s.operations[i].kubernetes_action {
            Some(KubernetesAction::Delete) => true,
            _ => false,
        };
        if is_del {
            let body = crate::lookup::find_body_param(&s.operations[i].parameters);
            match body {
                Some(b) => {
                    let ghost pv = oldop.parameters;
                    let body_ok = match &s.operations[i].parameters[b].schema.kind {
                        SchemaKind::Ref(rp) => str_eq(
                            rp.path.as_str(),
                            "io.k8s.apimachinery.pkg.apis.meta.v1.DeleteOptions",
                        ),
                        _ => false,
                    };
                    proof {
                        assert(pv[b as int] == s.operations@[i as int].parameters@[b as int]@);
                        assert(body_ok == delete_body_ok(oldop));
                    }
                    if !body_ok {
                        let msg = crate::text::str_concat3(
                            "DELETE operation ",
                            s.operations[i].id.as_str(),
                            " does not have a DeleteOptions body parameter",
                        );
                        proof {
                            assert(!delete_op_ok(oldop));
                            crate::text::lemma_concat_contains_middle(
                                "DELETE operation "@,
                                oldop.id,
                                " does not have a DeleteOptions body parameter"@,
                            );
                            assert(crate::text::text_contains(msg@, oldop.id));
                        }
                        return Err(FixupError { message: msg });
                    }
                    let mut new_params = filter_path_params(&s.operations[i].parameters);
                    new_params.push(
                        make_ref_param(
                            ParameterLocation::Body,
                            "optional",
                            "Optional parameters. Use `Default::default()` to not pass any.",
                            "io.k8s.DeleteOptional",
                        ),
                    );
                    proof {
                        assert(view_parameters(new_params@) =~= delete_params(pv));
                    }
                    let op = &mut s.operations[i];
                    op.parameters = new_params;
                    found = true;
                    proof {
                        assert(s.operations@[i as int]@ == (OperationView {
                            parameters: delete_params(pv),
                            ..oldop
                        }));
                        assert(s.operations@[i as int]@ == target.operations[i as int]);
                    }
                },
                None => {
                    let msg = crate::text::str_concat3(
                        "DELETE operation ",
                        s.operations[i].id.as_str(),
                        " does not have a DeleteOptions body parameter",
                    );
                    proof {
                        assert(!delete_op_ok(oldop));
                        crate::text::lemma_concat_contains_middle(
                            "DELETE operation "@,
                            oldop.id,
                            " does not have a DeleteOptions body parameter"@,
                        );
                        assert(crate::text::text_contains(msg@, oldop.id));
                        assert(!can_remove_delete(old(s)@));
                    }
                    return Err(FixupError { message: msg });
                },
            }
        } else {
            proof {
                assert(s.operations@[i as int]@ == target.operations[i as int]);
            }
        }
        i = i + 1;
    }
    if found {
        proof {
            assert(s@ =~= target);
        }
        Ok(())
    } else {
        proof {
            assert(!can_remove_delete(old(s)@));
        }
        Err(FixupError::new("never applied remove-delete-operations-query-parameters fixup"))
    }
}

} // verus!
