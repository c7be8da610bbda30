//! The pass that marks the well-known Patch-body definition for special
//! request-body handling, and the pass that collapses the optional
//! parameters of every patch operation into one shared aggregate.

use vstd::prelude::*;

use crate::error::FixupError;
use crate::ir::ApiSpec;
use crate::ir::{OptionalProperty, Schema, SchemaKind, Type};
use crate::lookup::find_definition;
use crate::model::{ApiSpecView, DefinitionView, KubernetesAction, OperationView,
    OptionalPropertyView, ParameterLocation, ParameterView, SchemaKindView, SchemaView, TypeView,
    def_insert, def_present, def_schema, has_optional_param, lemma_def_index,
    lemma_optional_param_index, lemma_optional_param_names, lemma_optional_param_names_take_step,
    optional_param_index, optional_param_names, required_params};
use crate::names::{optional_name, optional_parameter_description, patch_optional_description,
    patch_optional_path, patch_path};
use crate::synth::{make_ref_param, synthesized_ref_param};

verus! {

/// Whether the well-known Patch-body definition exists.
pub open spec fn can_patch(s: ApiSpecView) -> bool {
    def_present(s.definitions, patch_path())
}

/// The Patch-body definition's kind forced to the `Patch` marker; everything
/// else unchanged.
pub open spec fn apply_patch(s: ApiSpecView) -> ApiSpecView {
    let d = def_schema(s.definitions, patch_path());
    ApiSpecView {
        definitions: def_insert(
            s.definitions,
            patch_path(),
            SchemaView { kind: SchemaKindView::Ty(TypeView::Patch), ..d },
        ),
        operations: s.operations,
    }
}

/// Force the kind of the well-known Patch-body definition to the `Patch`
/// marker, so that the downstream generator special-cases its encoding.
pub fn patch(s: &mut ApiSpec) -> (r: Result<(), FixupError>)
    ensures
        r is Ok <==> can_patch(old(s)@),
        r is Ok ==> final(s)@ == apply_patch(old(s)@),
        r is Err ==> final(s)@ == old(s)@,
        r matches Err(e) ==> e.message@ == "never applied Patch override"@,
{
    let found = find_definition(&s.definitions, "io.k8s.apimachinery.pkg.apis.meta.v1.Patch");
    match found {
        Some(i) => {
            let entry = &mut s.definitions[i];
            entry.schema.kind = SchemaKind::Ty(Type::Patch);
            proof {
                let dv0 = old(s)@.definitions;
                let dv1 = s@.definitions;
                assert(patch_path() == "io.k8s.apimachinery.pkg.apis.meta.v1.Patch"@);
                lemma_def_index(dv0, patch_path());
                assert(dv0[i as int].path == patch_path());
                assert(def_present(dv0, patch_path()));
                assert(s.definitions@ == old(s).definitions@.update(
                    i as int,
                    s.definitions@[i as int],
                ));
                assert(dv1.len() == dv0.len());
                let target = apply_patch(old(s)@).definitions;
                assert(target == dv0.update(
                    i as int,
                    DefinitionView {
                        path: patch_path(),
                        schema: SchemaView {
                            kind: SchemaKindView::Ty(TypeView::Patch),
                            ..def_schema(dv0, patch_path())
                        },
                    },
                ));
                assert forall|j: int| 0 <= j < dv1.len() implies dv1[j] == target[j] by {
                    if j == i as int {
                        assert(dv1[j] == s.definitions@[j]@);
                        assert(dv0[j] == old(s).definitions@[j]@);
                        assert(dv1[j].path == dv0[j].path);
                        assert(dv1[j].schema.kind == SchemaKindView::Ty(TypeView::Patch));
                        assert(dv1[j].schema.description == dv0[j].schema.description);
                    } else {
                        assert(s.definitions@[j] == old(s).definitions@[j]);
                    }
                }
                assert(dv1 =~= target);
                assert(s@ =~= apply_patch(old(s)@));
            }
            Ok(())
        },
        None => Err(FixupError::new("never applied Patch override")),
    }
}

/// Whether the operation is a patch operation.
pub open spec fn is_patch_op(op: OperationView) -> bool {
    op.kubernetes_action == Some(KubernetesAction::Patch)
}

/// Index of the first patch operation, or `ops.len()` if there is none.
pub open spec fn patch_op_index(ops: Seq<OperationView>) -> int
    decreases ops.len(),
{
    if ops.len() == 0 {
        0
    } else if is_patch_op(ops[0]) {
        0
    } else {
        1 + patch_op_index(ops.drop_first())
    }
}

/// The characterization of `patch_op_index`.
pub proof fn lemma_patch_op_index(ops: Seq<OperationView>)
    ensures
        0 <= patch_op_index(ops) <= ops.len(),
        patch_op_index(ops) < ops.len() ==> is_patch_op(ops[patch_op_index(ops)]),
        forall|j: int| 0 <= j < patch_op_index(ops) ==> !is_patch_op(#[trigger] ops[j]),
    decreases ops.len(),
{
    if ops.len() != 0 && !is_patch_op(ops[0]) {
        lemma_patch_op_index(ops.drop_first());
        assert forall|j: int| 0 <= j < patch_op_index(ops) implies !is_patch_op(
            #[trigger] ops[j],
        ) by {
            if j > 0 {
                assert(ops[j] == ops.drop_first()[j - 1]);
            }
        }
    }
}

/// The canonical optional-parameter name set: the optional parameter names
/// of the first patch operation, in order of first appearance.
pub open spec fn patch_optional_names(s: ApiSpecView) -> Seq<Seq<char>> {
    optional_param_names(s.operations[patch_op_index(s.operations)].parameters)
}

/// Whether `op` exposes every canonical optional parameter and no other
/// optional parameter.
pub open spec fn patch_op_consistent(op: OperationView, names: Seq<Seq<char>>) -> bool {
    &&& forall|k: int|
        0 <= k < names.len() ==> has_optional_param(op.parameters, #[trigger] names[k])
    &&& forall|j: int|
        0 <= j < op.parameters.len() && !(#[trigger] op.parameters[j]).required
            ==> names.contains(op.parameters[j].name)
}

/// Whether patch operations exist and all of them expose the same optional
/// parameter name set, fixed by the first one.
pub open spec fn can_create_patch_optional(s: ApiSpecView) -> bool {
    &&& exists|i: int| 0 <= i < s.operations.len() && is_patch_op(#[trigger] s.operations[i])
    &&& forall|i: int|
        0 <= i < s.operations.len() && is_patch_op(#[trigger] s.operations[i])
            ==> patch_op_consistent(s.operations[i], patch_optional_names(s))
}

/// The aggregate entries: each canonical name with the schema of the first
/// patch operation's first optional parameter of that name.
pub open spec fn aggregate_props(
    params: Seq<ParameterView>,
    names: Seq<Seq<char>>,
) -> Seq<OptionalPropertyView> {
    Seq::new(
        names.len(),
        |k: int|
            OptionalPropertyView {
                name: names[k],
                schema: params[optional_param_index(params, names[k])].schema,
            },
    )
}

/// The synthesized patch aggregate definition.  Its entries iterate in
/// ascending name order, the order of an ordered map keyed by name.
pub open spec fn patch_optional_entry(s: ApiSpecView) -> SchemaView {
    SchemaView {
        description: Some(patch_optional_description()),
        kind: SchemaKindView::Ty(
            TypeView::PatchOptional(
                aggregate_props(
                    s.operations[patch_op_index(s.operations)].parameters,
                    crate::text::sort_names(patch_optional_names(s)),
                ),
            ),
        ),
        kubernetes_group_kind_versions: None,
        has_corresponding_list_type: false,
    }
}

/// The rewritten parameter list of a patch operation: the required
/// parameters and one shared query parameter referencing the aggregate.
pub open spec fn patch_params(params: Seq<ParameterView>) -> Seq<ParameterView> {
    required_params(params).push(
        synthesized_ref_param(
            ParameterLocation::Query,
            optional_name(),
            optional_parameter_description(),
            patch_optional_path(),
        ),
    )
}

/// The aggregate definition added and every patch operation rewritten.
pub open spec fn apply_create_patch_optional(s: ApiSpecView) -> ApiSpecView {
    ApiSpecView {
        definitions: def_insert(s.definitions, patch_optional_path(), patch_optional_entry(s)),
        operations: Seq::new(
            s.operations.len(),
            |i: int|
                if is_patch_op(s.operations[i]) {
                    OperationView {
                        parameters: patch_params(s.operations[i].parameters),
                        ..s.operations[i]
                    }
                } else {
                    s.operations[i]
                },
        ),
    }
}

/// Extract the common optional parameters of all patch operations into one
/// aggregate definition, and give every patch operation its required
/// parameters plus one shared parameter referencing the aggregate.  The
/// first patch operation fixes the expected optional name set; a patch
/// operation missing one of those names, or exposing another optional
/// parameter, fails the pass.  On failure, already-rewritten operations keep
/// their new shape; the caller discards the spec.
#[verifier::loop_isolation(false)]
pub fn create_patch_optional(s: &mut ApiSpec) -> (r: Result<(), FixupError>)
    ensures
        r is Ok <==> can_create_patch_optional(old(s)@),
        r is Ok ==> final(s)@ == apply_create_patch_optional(old(s)@),
        r is Err ==> ((forall|i: int|
            0 <= i < old(s)@.operations.len() ==> !is_patch_op(
                #[trigger] old(s)@.operations[i],
            )) ==> final(s)@ == old(s)@),
        r matches Err(e) ==> ({
            let ops = old(s)@.operations;
            let names = patch_optional_names(old(s)@);
            ||| (e.message@ == "never found any patch operations"@ && (forall|i: int|
                0 <= i < ops.len() ==> !is_patch_op(#[trigger] ops[i])))
            ||| (exists|i: int, k: int|
                #![trigger ops[i], names[k]]
                0 <= i < ops.len() && is_patch_op(ops[i]) && 0 <= k < names.len()
                    && !has_optional_param(ops[i].parameters, names[k]) && e.message@
                    == "operation "@ + ops[i].id + " is a patch operation but doesn't have a "@
                    + names[k] + " parameter"@)
            ||| (exists|i: int, j: int|
                #![trigger ops[i].parameters[j]]
                0 <= i < ops.len() && is_patch_op(ops[i]) && 0 <= j < ops[i].parameters.len()
                    && !ops[i].parameters[j].required && !names.contains(
                    ops[i].parameters[j].name,
                ) && e.message@ == "operation "@ + ops[i].id
                    + " contains unexpected optional parameter "@ + ops[i].parameters[j].name)
        }),
{
    let ghost target = apply_create_patch_optional(old(s)@);
    let ghost oldops = old(s)@.operations;
    let ghost fidx = patch_op_index(oldops);
    let ghost canonical = patch_optional_names(old(s)@);
    let mut have_names = false;
    let mut names: Vec<String> = Vec::new();
    let mut agg: Vec<OptionalProperty> = Vec::new();
    proof {
        lemma_patch_op_index(oldops);
    }
    let mut i: usize = 0;
    while i < s.operations.len()
        invariant
            i <= s.operations@.len(),
            s.operations@.len() == old(s).operations@.len(),
            s.definitions@ == old(s).definitions@,
            target == apply_create_patch_optional(old(s)@),
            oldops == old(s)@.operations,
            target.operations.len() == oldops.len(),
            oldops.len() == old(s).operations@.len(),
            fidx == patch_op_index(oldops),
            0 <= fidx <= oldops.len(),
            canonical == patch_optional_names(old(s)@),
            forall|j: int| i <= j < s.operations@.len()
                ==> s.operations@[j] == old(s).operations@[j],
            forall|j: int| 0 <= j < i ==> #[trigger] s.operations@[j]@ == target.operations[j],
            have_names <==> (fidx < i),
            have_names ==> crate::ir::view_strings(names@) == canonical,
            have_names ==> crate::ir::view_optional_properties(agg@) == aggregate_props(
                oldops[fidx].parameters,
                crate::text::sort_names(canonical),
            ),
            !have_names ==> names@.len() == 0 && agg@.len() == 0,
            forall|j: int|
                0 <= j < i && is_patch_op(#[trigger] oldops[j]) ==> patch_op_consistent(
                    oldops[j],
                    canonical,
                ),
        decreases s.operations@.len() - i,
    {
        let ghost oldop = oldops[i as int];
        proof {
            assert(oldop == old(s).operations@[i as int]@);
            lemma_patch_op_index(oldops);
        }
        let is_p = match s.operations[i].kubernetes_action {
            Some(KubernetesAction::Patch) => true,
            _ => false,
        };
        if is_p {
            if !have_names {
                proof {
                    assert(fidx == i as int);
                }
                let params = &s.operations[i].parameters;
                let ghost pv = crate::ir::view_parameters(params@);
                proof {
                    assert(pv == oldop.parameters);
                }
                let mut j: usize = 0;
                while j < params.len()
                    invariant
                        j <= params@.len(),
                        pv == crate::ir::view_parameters(params@),
                        pv.len() == params@.len(),
                        crate::ir::view_strings(names@) == optional_param_names(
                            pv.take(j as int),
                        ),
                    decreases params@.len() - j,
                {
                    let ghost nprev = crate::ir::view_strings(names@);
                    proof {
                        lemma_optional_param_names_take_step(pv, j as int);
                        assert(pv[j as int] == params@[j as int]@);
                    }
                    if !params[j].required {
                        if !crate::lookup::names_contain(&names, params[j].name.as_str()) {
                            let ghost n = params@[j as int].name@;
                            names.push(params[j].name.clone());
                            proof {
                                assert(crate::ir::view_strings(names@) =~= nprev.push(n));
                            }
                        }
                    }
                    j = j + 1;
                }
                proof {
                    assert(pv.take(pv.len() as int) =~= pv);
                    assert(crate::ir::view_strings(names@) == canonical);
                    lemma_optional_param_names(pv);
                    assert forall|k: int| 0 <= k < canonical.len() implies has_optional_param(
                        oldop.parameters,
                        #[trigger] canonical[k],
                    ) by {
                        assert(canonical.contains(canonical[k]));
                        lemma_optional_param_index(pv, canonical[k]);
                        if !has_optional_param(pv, canonical[k]) {
                            let w = choose|w: int|
                                0 <= w < pv.len() && #[trigger] pv[w].name == canonical[k]
                                    && !pv[w].required;
                            assert(false);
                        }
                    }
                    assert(patch_op_consistent(oldop, canonical));
                }
                let sorted = crate::lookup::sort_names_vec(&names);
                let ghost sortedv = crate::ir::view_strings(sorted@);
                proof {
                    assert(sortedv == crate::text::sort_names(canonical));
                }
                let mut k2: usize = 0;
                while k2 < sorted.len()
                    invariant
                        k2 <= sorted@.len(),
                        sortedv == crate::ir::view_strings(sorted@),
                        sortedv.len() == sorted@.len(),
                        agg@.len() == k2,
                        forall|w: int|
                            0 <= w < k2 ==> #[trigger] agg@[w]@ == (OptionalPropertyView {
                                name: sortedv[w],
                                schema: pv[optional_param_index(pv, sortedv[w])].schema,
                            }),
                    decreases sorted@.len() - k2,
                {
                    proof {
                        assert(sortedv[k2 as int] == sorted@[k2 as int]@);
                    }
                    match crate::lookup::find_optional_param(params, sorted[k2].as_str()) {
                        Some(pi) => {
                            proof {
                                assert(pv[pi as int] == params@[pi as int]@);
                            }
                            agg.push(
                                OptionalProperty {
                                    name: sorted[k2].clone(),
                                    schema: params[pi].schema.deep_clone(),
                                },
                            );
                        },
                        None => {
                            proof {
                                assert(sortedv.contains(sortedv[k2 as int]));
                                crate::text::lemma_sort_names_contains(
                                    canonical,
                                    sortedv[k2 as int],
                                );
                                assert(canonical.contains(sortedv[k2 as int]));
                                lemma_optional_param_names(pv);
                                let w = choose|w: int|
                                    0 <= w < pv.len() && #[trigger] pv[w].name == sortedv[
                                    k2 as int] && !pv[w].required;
                                lemma_optional_param_index(pv, sortedv[k2 as int]);
                                assert(false);
                            }
                            return Err(FixupError::new("never found any patch operations"));
                        },
                    }
                    k2 = k2 + 1;
                }
                proof {
                    crate::ir::lemma_view_optional_properties(agg@);
                    assert forall|w: int|
                        0 <= w < agg@.len() implies crate::ir::view_optional_properties(agg@)[w]
                        == aggregate_props(pv, crate::text::sort_names(canonical))[w] by {
                        assert(crate::ir::view_optional_properties(agg@)[w]
                            == crate::ir::view_optional_property(agg@[w]));
                        assert(agg@[w]@ == (OptionalPropertyView {
                            name: sortedv[w],
                            schema: pv[optional_param_index(pv, sortedv[w])].schema,
                        }));
                    }
                    assert(crate::ir::view_optional_properties(agg@) =~= aggregate_props(
                        pv,
                        crate::text::sort_names(canonical),
                    ));
                }
                have_names = true;
            } else {
                let mut k: usize = 0;
                while k < names.len()
                    invariant
                        k <= names@.len(),
                        crate::ir::view_strings(names@) == canonical,
                        canonical.len() == names@.len(),
                        i < s.operations@.len(),
                        s.operations@[i as int] == old(s).operations@[i as int],
                        oldop == old(s).operations@[i as int]@,
                        forall|m: int|
                            0 <= m < k ==> has_optional_param(
                                oldop.parameters,
                                #[trigger] canonical[m],
                            ),
                    decreases names@.len() - k,
                {
                    let f = crate::lookup::find_optional_param(
                        &s.operations[i].parameters,
                        names[k].as_str(),
                    );
                    match f {
                        Some(_) => {},
                        None => {
                            proof {
                                assert(crate::ir::view_strings(names@)[k as int] == names@[
                                    k as int]@);
                                assert(!has_optional_param(oldop.parameters, canonical[k as int]));
                                assert(!patch_op_consistent(oldop, canonical));
                                assert(is_patch_op(oldops[i as int]));
                                assert(!can_create_patch_optional(old(s)@));
                            }
                            let msg = crate::text::str_concat3(
                                "operation ",
                                s.operations[i].id.as_str(),
                                " is a patch operation but doesn't have a ",
                            );
                            let msg = crate::text::str_concat3(
                                msg.as_str(),
                                names[k].as_str(),
                                " parameter",
                            );
                            proof {
                                assert(msg@ == "operation "@ + oldop.id
                                    + " is a patch operation but doesn't have a "@ + canonical[
                                    k as int] + " parameter"@);
                            }
                            return Err(FixupError { message: msg });
                        },
                    }
                    k = k + 1;
                }
                let mut m: usize = 0;
                while m < s.operations[i].parameters.len()
                    invariant
                        m <= s.operations@[i as int].parameters@.len(),
                        crate::ir::view_strings(names@) == canonical,
                        i < s.operations@.len(),
                        s.operations@[i as int] == old(s).operations@[i as int],
                        oldop == old(s).operations@[i as int]@,
                        forall|w: int|
                            0 <= w < m && !(#[trigger] oldop.parameters[w]).required
                                ==> canonical.contains(oldop.parameters[w].name),
                    decreases s.operations@[i as int].parameters@.len() - m,
                {
                    let p_required = s.operations[i].parameters[m].required;
                    let in_names = crate::lookup::names_contain(
                        &names,
                        s.operations[i].parameters[m].name.as_str(),
                    );
                    proof {
                        assert(oldop.parameters[m as int] == s.operations@[i as int].parameters@[
                            m as int]@);
                    }
                    if !p_required && !in_names {
                        proof {
                            assert(!patch_op_consistent(oldop, canonical));
                            assert(is_patch_op(oldops[i as int]));
                            assert(!can_create_patch_optional(old(s)@));
                        }
                        let msg = crate::text::str_concat3(
                            "operation ",
                            s.operations[i].id.as_str(),
                            " contains unexpected optional parameter ",
                        );
                        let msg = crate::text::str_concat(
                            msg.as_str(),
                            s.operations[i].parameters[m].name.as_str(),
                        );
                        proof {
                            assert(msg@ == "operation "@ + oldop.id
                                + " contains unexpected optional parameter "@ + oldop.parameters[
                                m as int].name);
                        }
                        return Err(FixupError { message: msg });
                    }
                    m = m + 1;
                }
                proof {
                    assert forall|k2: int| 0 <= k2 < canonical.len() implies has_optional_param(
                        oldop.parameters,
                        #[trigger] canonical[k2],
                    ) by {}
                    assert(patch_op_consistent(oldop, canonical));
                }
            }
            let mut new_params = crate::lookup::filter_required_params(&s.operations[i].parameters);
            new_params.push(
                make_ref_param(
                    ParameterLocation::Query,
                    "optional",
                    "Optional parameters. Use `Default::default()` to not pass any.",
                    "io.k8s.PatchOptional",
                ),
            );
            proof {
                assert(crate::ir::view_parameters(new_params@) =~= patch_params(oldop.parameters));
            }
            let op = &mut s.operations[i];
            op.parameters = new_params;
            proof {
                assert(s.operations@[i as int]@ == (OperationView {
                    parameters: patch_params(oldop.parameters),
                    ..oldop
                }));
                assert(s.operations@[i as int]@ == target.operations[i as int]);
            }
        } else {
            proof {
                assert(s.operations@[i as int]@ == target.operations[i as int]);
            }
        }
        i = i + 1;
    }
    proof {
        lemma_patch_op_index(oldops);
    }
    if !have_names {
        proof {
            assert forall|w: int|
                0 <= w < oldops.len() implies !is_patch_op(#[trigger] oldops[w]) by {}
            assert(!can_create_patch_optional(old(s)@));
            assert(s@ =~= old(s)@);
        }
        return Err(FixupError::new("never found any patch operations"));
    }
    let entry = Schema {
        description: Some(crate::text::str_copy("Common parameters for all patch operations.")),
        kind: SchemaKind::Ty(Type::PatchOptional(agg)),
        kubernetes_group_kind_versions: None,
        has_corresponding_list_type: false,
    };
    proof {
        assert(have_names);
        assert(entry@ == patch_optional_entry(old(s)@));
    }
    crate::lookup::insert_definition(
        &mut s.definitions,
        crate::text::str_copy("io.k8s.PatchOptional"),
        entry,
    );
    proof {
        assert(fidx < oldops.len());
        assert(is_patch_op(oldops[fidx]));
        assert(s@ =~= target);
    }
    Ok(())
}

} // verus!
