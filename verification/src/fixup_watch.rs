//! The pass that folds the well-known WatchEvent definition into its
//! special marker shape, and the pass that separates watch operations from
//! list operations.

use vstd::prelude::*;

use crate::error::FixupError;
use crate::ir::{ApiSpec, SchemaKind, Type};
use crate::lookup::{find_definition, find_property};
use crate::model::{ApiSpecView, DefinitionView, KubernetesAction, OperationView, PropertyView,
    ResponseView, SchemaKindView, SchemaView, TypeView, def_insert, def_present, def_schema,
    has_optional_param, lemma_def_index, lemma_op_index, lemma_prop_index, op_index, op_present,
    optional_param_names, prop_index, prop_present, required_params};
use crate::names::{allow_watch_bookmarks_name, continue_name, for_all_namespaces_suffix,
    limit_name, list_for_all_namespaces_suffix, list_only_note, list_optional_description,
    list_optional_path, list_prefix, list_suffix, newline, object_name, ok_description,
    optional_name, optional_parameter_description, paragraph_break, watch_event_path,
    watch_name, watch_only_note, watch_optional_description, watch_optional_path, watch_prefix};
use crate::text::{str_concat, str_concat3};

verus! {

/// Whether the well-known WatchEvent definition exists, is
/// `Properties`-shaped, and carries a required `object` property whose
/// schema is a reference.
pub open spec fn can_watch_event(s: ApiSpecView) -> bool {
    &&& def_present(s.definitions, watch_event_path())
    &&& def_schema(s.definitions, watch_event_path()).kind is Properties
    &&& {
        let props = def_schema(s.definitions, watch_event_path()).kind->Properties_0;
        &&& prop_present(props, object_name())
        &&& props[prop_index(props, object_name())].required
        &&& props[prop_index(props, object_name())].schema.kind is Ref
    }
}

/// The description of the rewritten WatchEvent definition: the object
/// property's description folded in, blank-line separated, when both exist.
pub open spec fn watch_event_description(
    type_description: Option<Seq<char>>,
    property_description: Option<Seq<char>>,
) -> Option<Seq<char>> {
    match (type_description, property_description) {
        (Some(td), Some(pd)) => Some(td + paragraph_break() + pd + newline()),
        (td, _) => td,
    }
}

/// The WatchEvent definition rewritten to the `WatchEvent` marker carrying
/// the object property's reference path; everything else unchanged.
pub open spec fn apply_watch_event(s: ApiSpecView) -> ApiSpecView {
    let d = def_schema(s.definitions, watch_event_path());
    let props = d.kind->Properties_0;
    let obj = props[prop_index(props, object_name())];
    ApiSpecView {
        definitions: def_insert(
            s.definitions,
            watch_event_path(),
            SchemaView {
                description: watch_event_description(d.description, obj.schema.description),
                kind: SchemaKindView::Ty(TypeView::WatchEvent(obj.schema.kind->Ref_0)),
                ..d
            },
        ),
        operations: s.operations,
    }
}

/// Fold the `object` property of the well-known WatchEvent definition into
/// the `WatchEvent` marker shape, carrying the property's reference path and
/// appending the property's description to the definition's.
pub fn watch_event(s: &mut ApiSpec) -> (r: Result<(), FixupError>)
    ensures
        r is Ok <==> can_watch_event(old(s)@),
        r is Ok ==> final(s)@ == apply_watch_event(old(s)@),
        r is Err ==> final(s)@ == old(s)@,
        r matches Err(e) ==> e.message@ == "never applied WatchEvent override"@,
{
    let found = find_definition(&s.definitions, "io.k8s.apimachinery.pkg.apis.meta.v1.WatchEvent");
    let i = match found {
        Some(i) => i,
        None => {
            return Err(FixupError::new("never applied WatchEvent override"));
        },
    };
    proof {
        lemma_def_index(old(s)@.definitions, watch_event_path());
    }
    let ghost d = def_schema(old(s)@.definitions, watch_event_path());
    let (ref_path, obj_description) = {
        let props = match &s.definitions[i].schema.kind {
            SchemaKind::Properties(props) => props,
            _ => {
                return Err(FixupError::new("never applied WatchEvent override"));
            },
        };
        proof {
            crate::ir::lemma_view_properties(props@);
            assert(d.kind == SchemaKindView::Properties(crate::ir::view_properties(props@)));
        }
        let oi = match find_property(props, "object") {
            Some(oi) => oi,
            None => {
                return Err(FixupError::new("never applied WatchEvent override"));
            },
        };
        if !props[oi].required {
            return Err(FixupError::new("never applied WatchEvent override"));
        }
        proof {
            lemma_prop_index(crate::ir::view_properties(props@), object_name());
        }
        let rp = match &props[oi].schema.kind {
            SchemaKind::Ref(rp) => rp.deep_clone(),
            _ => {
                return Err(FixupError::new("never applied WatchEvent override"));
            },
        };
        (rp, crate::ir::clone_opt_string(&props[oi].schema.description))
    };
    let new_description: Option<String> = match &s.definitions[i].schema.description {
        Some(td) => match &obj_description {
            Some(pd) => Some(
                str_concat(str_concat3(td.as_str(), "\n\n", pd.as_str()).as_str(), "\n"),
            ),
            None => Some(td.clone()),
        },
        None => None,
    };
    let entry = &mut s.definitions[i];
    entry.schema.description = new_description;
    entry.schema.kind = SchemaKind::Ty(Type::WatchEvent(ref_path));
    proof {
        let dv0 = old(s)@.definitions;
        let dv1 = s@.definitions;
        let props = d.kind->Properties_0;
        let obj = props[prop_index(props, object_name())];
        let target = apply_watch_event(old(s)@).definitions;
        assert(dv0[i as int].path == watch_event_path());
        assert(target == dv0.update(
            i as int,
            DefinitionView {
                path: watch_event_path(),
                schema: SchemaView {
                    description: watch_event_description(d.description, obj.schema.description),
                    kind: SchemaKindView::Ty(TypeView::WatchEvent(obj.schema.kind->Ref_0)),
                    ..d
                },
            },
        ));
        assert forall|j: int| 0 <= j < dv1.len() implies dv1[j] == target[j] by {
            if j == i as int {
                assert(dv1[j] == s.definitions@[j]@);
                assert(dv0[j] == old(s).definitions@[j]@);
                assert(dv1[j].schema.kind == SchemaKindView::Ty(
                    TypeView::WatchEvent(obj.schema.kind->Ref_0),
                ));
                assert(dv1[j].schema.description == watch_event_description(
                    d.description,
                    obj.schema.description,
                ));
            } else {
                assert(s.definitions@[j] == old(s).definitions@[j]);
            }
        }
        assert(dv1 =~= target);
        assert(s@ =~= apply_watch_event(old(s)@));
    }
    Ok(())
}

/// Whether the operation is a list operation.
pub open spec fn is_list_action(op: OperationView) -> bool {
    op.kubernetes_action == Some(KubernetesAction::List)
}

/// Index of the first list operation, or `ops.len()` if there is none.
pub open spec fn list_op_index(ops: Seq<OperationView>) -> int
    decreases ops.len(),
{
    if ops.len() == 0 {
        0
    } else if is_list_action(ops[0]) {
        0
    } else {
        1 + list_op_index(ops.drop_first())
    }
}

/// The characterization of `list_op_index`.
pub proof fn lemma_list_op_index(ops: Seq<OperationView>)
    ensures
        0 <= list_op_index(ops) <= ops.len(),
        list_op_index(ops) < ops.len() ==> is_list_action(ops[list_op_index(ops)]),
        forall|j: int| 0 <= j < list_op_index(ops) ==> !is_list_action(#[trigger] ops[j]),
    decreases ops.len(),
{
    if ops.len() != 0 && !is_list_action(ops[0]) {
        lemma_list_op_index(ops.drop_first());
        assert forall|j: int| 0 <= j < list_op_index(ops) implies !is_list_action(
            #[trigger] ops[j],
        ) by {
            if j > 0 {
                assert(ops[j] == ops.drop_first()[j - 1]);
            }
        }
    }
}

/// The ids of all list operations, in order.
pub open spec fn list_op_ids(ops: Seq<OperationView>) -> Seq<Seq<char>>
    decreases ops.len(),
{
    if ops.len() == 0 {
        Seq::empty()
    } else {
        let rest = list_op_ids(ops.drop_last());
        if is_list_action(ops.last()) {
            rest.push(ops.last().id)
        } else {
            rest
        }
    }
}

/// `list_op_ids` over one more operation.
pub proof fn lemma_list_op_ids_take_step(ops: Seq<OperationView>, i: int)
    requires
        0 <= i < ops.len(),
    ensures
        list_op_ids(ops.take(i + 1)) == if is_list_action(ops[i]) {
            list_op_ids(ops.take(i)).push(ops[i].id)
        } else {
            list_op_ids(ops.take(i))
        },
{
    assert(ops.take(i + 1).drop_last() =~= ops.take(i));
    assert(ops.take(i + 1).last() == ops[i]);
}

/// The canonical optional-parameter name set of the list operations.
pub open spec fn canonical_list_names(s: ApiSpecView) -> Seq<Seq<char>> {
    optional_param_names(s.operations[list_op_index(s.operations)].parameters)
}

/// Whether a list operation's id starts with "list" and it exposes exactly
/// the canonical optional parameters.
pub open spec fn list_op_wellformed(op: OperationView, names: Seq<Seq<char>>) -> bool {
    &&& crate::text::spec_starts_with(op.id, list_prefix())
    &&& forall|k: int|
        0 <= k < names.len() ==> has_optional_param(op.parameters, #[trigger] names[k])
    &&& forall|j: int|
        0 <= j < op.parameters.len() && !(#[trigger] op.parameters[j]).required
            ==> names.contains(op.parameters[j].name)
}

/// The canonical names kept for the list aggregate: all but the bookmark
/// flag and the watch flag.
pub open spec fn list_kept_names(names: Seq<Seq<char>>) -> Seq<Seq<char>>
    decreases names.len(),
{
    if names.len() == 0 {
        Seq::empty()
    } else {
        let rest = list_kept_names(names.drop_last());
        if names.last() != allow_watch_bookmarks_name() && names.last() != watch_name() {
            rest.push(names.last())
        } else {
            rest
        }
    }
}

/// The canonical names kept for the watch aggregate: all but the pagination
/// cursor, the page limit and the watch flag.
pub open spec fn watch_kept_names(names: Seq<Seq<char>>) -> Seq<Seq<char>>
    decreases names.len(),
{
    if names.len() == 0 {
        Seq::empty()
    } else {
        let rest = watch_kept_names(names.drop_last());
        if names.last() != continue_name() && names.last() != limit_name() && names.last()
            != watch_name() {
            rest.push(names.last())
        } else {
            rest
        }
    }
}

/// Every name kept for the list aggregate is a canonical name.
pub proof fn lemma_list_kept_subset(ns: Seq<Seq<char>>, x: Seq<char>)
    ensures
        list_kept_names(ns).contains(x) ==> ns.contains(x),
    decreases ns.len(),
{
    if ns.len() != 0 {
        lemma_list_kept_subset(ns.drop_last(), x);
        let rest = list_kept_names(ns.drop_last());
        let whole = list_kept_names(ns);
        if whole.contains(x) {
            let q = choose|q: int| 0 <= q < whole.len() && whole[q] == x;
            if q < rest.len() {
                assert(rest[q] == x);
                assert(rest.contains(x));
                if ns.drop_last().contains(x) {
                    let w = choose|w: int|
                        0 <= w < ns.drop_last().len() && ns.drop_last()[w] == x;
                    assert(ns[w] == x);
                }
            } else {
                assert(x == ns.last());
                assert(ns[ns.len() - 1] == x);
            }
        }
    }
}

/// Every name kept for the watch aggregate is a canonical name.
pub proof fn lemma_watch_kept_subset(ns: Seq<Seq<char>>, x: Seq<char>)
    ensures
        watch_kept_names(ns).contains(x) ==> ns.contains(x),
    decreases ns.len(),
{
    if ns.len() != 0 {
        lemma_watch_kept_subset(ns.drop_last(), x);
        let rest = watch_kept_names(ns.drop_last());
        let whole = watch_kept_names(ns);
        if whole.contains(x) {
            let q = choose|q: int| 0 <= q < whole.len() && whole[q] == x;
            if q < rest.len() {
                assert(rest[q] == x);
                assert(rest.contains(x));
                if ns.drop_last().contains(x) {
                    let w = choose|w: int|
                        0 <= w < ns.drop_last().len() && ns.drop_last()[w] == x;
                    assert(ns[w] == x);
                }
            } else {
                assert(x == ns.last());
                assert(ns[ns.len() - 1] == x);
            }
        }
    }
}

/// The synthesized list aggregate definition.
pub open spec fn list_optional_entry(s: ApiSpecView) -> SchemaView {
    SchemaView {
        description: Some(list_optional_description()),
        kind: SchemaKindView::Ty(
            TypeView::ListOptional(
                crate::fixup_patch::aggregate_props(
                    s.operations[list_op_index(s.operations)].parameters,
                    crate::text::sort_names(list_kept_names(canonical_list_names(s))),
                ),
            ),
        ),
        kubernetes_group_kind_versions: None,
        has_corresponding_list_type: false,
    }
}

/// The synthesized watch aggregate definition.
pub open spec fn watch_optional_entry(s: ApiSpecView) -> SchemaView {
    SchemaView {
        description: Some(watch_optional_description()),
        kind: SchemaKindView::Ty(
            TypeView::WatchOptional(
                crate::fixup_patch::aggregate_props(
                    s.operations[list_op_index(s.operations)].parameters,
                    crate::text::sort_names(watch_kept_names(canonical_list_names(s))),
                ),
            ),
        ),
        kubernetes_group_kind_versions: None,
        has_corresponding_list_type: false,
    }
}

/// The sibling watch-operation id: "list" replaced by "watch" at the front.
pub open spec fn derive_watch_id(id: Seq<char>) -> Seq<char> {
    watch_prefix() + id.skip(list_prefix().len() as int)
}

/// The sibling watch-list-operation id: "List" inserted before a trailing
/// "ForAllNamespaces", or appended at the end.
pub open spec fn derive_watch_list_id(wid: Seq<char>) -> Seq<char> {
    if crate::text::spec_ends_with(wid, for_all_namespaces_suffix()) {
        wid.take(wid.len() - for_all_namespaces_suffix().len()) + list_for_all_namespaces_suffix()
    } else {
        wid + list_suffix()
    }
}

/// One element taken out by swapping in the last element.
pub open spec fn swap_remove_seq(ops: Seq<OperationView>, i: int) -> Seq<OperationView> {
    ops.update(i, ops.last()).drop_last()
}

/// The first operation with id `id` swap-removed, if present.
pub open spec fn ops_swap_remove_id(ops: Seq<OperationView>, id: Seq<char>) -> Seq<
    OperationView,
> {
    if op_present(ops, id) {
        swap_remove_seq(ops, op_index(ops, id))
    } else {
        ops
    }
}

/// The shared description prefix of the two synthesized operations.
pub open spec fn base_description(op: OperationView) -> Seq<char> {
    match op.description {
        Some(d) => if d.len() == 0 {
            d
        } else {
            d + paragraph_break()
        },
        None => Seq::empty(),
    }
}

/// Index of the first response with status `code`, or `rs.len()`.
pub open spec fn resp_index(rs: Seq<ResponseView>, code: u16) -> int
    decreases rs.len(),
{
    if rs.len() == 0 {
        0
    } else if rs[0].status == code {
        0
    } else {
        1 + resp_index(rs.drop_first(), code)
    }
}

/// The characterization of `resp_index`.
pub proof fn lemma_resp_index(rs: Seq<ResponseView>, code: u16)
    ensures
        0 <= resp_index(rs, code) <= rs.len(),
        resp_index(rs, code) < rs.len() ==> rs[resp_index(rs, code)].status == code,
        forall|j: int| 0 <= j < resp_index(rs, code) ==> rs[j].status != code,
    decreases rs.len(),
{
    if rs.len() != 0 && rs[0].status != code {
        lemma_resp_index(rs.drop_first(), code);
        assert forall|j: int| 0 <= j < resp_index(rs, code) implies rs[j].status != code by {
            if j > 0 {
                assert(rs[j] == rs.drop_first()[j - 1]);
            }
        }
    }
}

/// Insert-or-replace a response by status code.
pub open spec fn responses_insert(rs: Seq<ResponseView>, code: u16, schema: SchemaView) -> Seq<
    ResponseView,
> {
    if resp_index(rs, code) < rs.len() {
        rs.update(resp_index(rs, code), ResponseView { status: code, schema })
    } else {
        rs.push(ResponseView { status: code, schema })
    }
}

/// The rewritten list operation: optional parameters collapsed into the
/// list aggregate, and a note appended to the description.
pub open spec fn new_list_op(op: OperationView) -> OperationView {
    OperationView {
        description: Some(base_description(op) + list_only_note()),
        parameters: required_params(op.parameters).push(
            crate::synth::synthesized_ref_param(
                crate::model::ParameterLocation::Query,
                optional_name(),
                optional_parameter_description(),
                list_optional_path(),
            ),
        ),
        ..op
    }
}

/// The synthesized watch operation: the list operation with the watch id,
/// the watch action, the watch aggregate, and the WatchEvent response.
pub open spec fn new_watch_op(op: OperationView) -> OperationView {
    OperationView {
        id: derive_watch_id(op.id),
        description: Some(base_description(op) + watch_only_note()),
        kubernetes_action: Some(KubernetesAction::Watch),
        parameters: required_params(op.parameters).push(
            crate::synth::synthesized_ref_param(
                crate::model::ParameterLocation::Query,
                optional_name(),
                optional_parameter_description(),
                watch_optional_path(),
            ),
        ),
        responses: responses_insert(
            op.responses,
            200,
            crate::synth::synthesized_ref_schema(ok_description(), watch_event_path()),
        ),
        ..op
    }
}

/// One id's step: the hand-written watch siblings removed, the list
/// operation replaced, and the synthesized watch operation appended.
pub open spec fn separate_step(ops: Seq<OperationView>, id: Seq<char>) -> Seq<OperationView> {
    let wid = derive_watch_id(id);
    let wlid = derive_watch_list_id(wid);
    let ops2 = ops_swap_remove_id(ops_swap_remove_id(ops, wid), wlid);
    let li = op_index(ops2, id);
    ops2.update(li, new_list_op(ops2[li])).push(new_watch_op(ops2[li]))
}

/// All ids' steps, in order.
pub open spec fn separate_steps(ops: Seq<OperationView>, ids: Seq<Seq<char>>) -> Seq<
    OperationView,
>
    decreases ids.len(),
{
    if ids.len() == 0 {
        ops
    } else {
        separate_steps(separate_step(ops, ids[0]), ids.drop_first())
    }
}

/// `separate_steps` split at a prefix.
pub proof fn lemma_separate_steps_split(
    ops: Seq<OperationView>,
    ids: Seq<Seq<char>>,
    k: int,
)
    requires
        0 <= k <= ids.len(),
    ensures
        separate_steps(ops, ids) == separate_steps(separate_steps(ops, ids.take(k)), ids.skip(k)),
    decreases k,
{
    if k == 0 {
        assert(ids.take(0) =~= Seq::<Seq<char>>::empty());
        assert(ids.skip(0) =~= ids);
    } else {
        let ops1 = separate_step(ops, ids[0]);
        assert(ids.take(k)[0] == ids[0]);
        assert(ids.take(k).len() != 0);
        lemma_separate_steps_split(ops1, ids.drop_first(), k - 1);
        assert(ids.take(k).drop_first() =~= ids.drop_first().take(k - 1));
        assert(ids.skip(k) =~= ids.drop_first().skip(k - 1));
    }
}

/// Whether every watch or watch-list operation was synthesized here.
pub open spec fn all_watch_converted(ops: Seq<OperationView>, converted: Seq<Seq<char>>) -> bool {
    forall|i: int|
        0 <= i < ops.len() && ((#[trigger] ops[i]).kubernetes_action == Some(
            KubernetesAction::Watch,
        ) || ops[i].kubernetes_action == Some(KubernetesAction::WatchList)) ==> converted.contains(
            ops[i].id,
        )
}

/// Whether the pass succeeds: a list operation exists, every list operation
/// is well-formed against the canonical optional name set, and after the
/// rewrite no hand-written watch operation is left over.
pub open spec fn can_separate(s: ApiSpecView) -> bool {
    let ops = s.operations;
    let names = canonical_list_names(s);
    let ids = list_op_ids(ops);
    &&& list_op_index(ops) < ops.len()
    &&& forall|i: int|
        0 <= i < ops.len() && is_list_action(#[trigger] ops[i]) ==> list_op_wellformed(
            ops[i],
            names,
        )
    &&& all_watch_converted(
        separate_steps(ops, ids),
        Seq::new(ids.len(), |k: int| derive_watch_id(ids[k])),
    )
}

/// Law: the derived watch-list id inserts "List" before a trailing
/// "ForAllNamespaces" rather than appending it, and appends "List" at the
/// end otherwise.
pub proof fn lemma_watch_list_id_rule(wid: Seq<char>)
    ensures
        crate::text::spec_ends_with(wid, for_all_namespaces_suffix()) ==> derive_watch_list_id(
            wid,
        ) == wid.take(wid.len() - for_all_namespaces_suffix().len())
            + list_for_all_namespaces_suffix(),
        !crate::text::spec_ends_with(wid, for_all_namespaces_suffix()) ==> derive_watch_list_id(
            wid,
        ) == wid + list_suffix(),
{
}

/// A list-operation id begins with the letter of "list"; the derived ids
/// begin with the letter of "watch".
pub proof fn lemma_derived_id_heads(id: Seq<char>)
    requires
        crate::text::spec_starts_with(id, list_prefix()),
    ensures
        id.len() >= 4,
        id[0] == 'l',
        derive_watch_id(id).len() >= 5,
        derive_watch_id(id)[0] == 'w',
        derive_watch_list_id(derive_watch_id(id)).len() >= 1,
        derive_watch_list_id(derive_watch_id(id))[0] == 'w',
{
    reveal_strlit("list");
    reveal_strlit("watch");
    reveal_strlit("ForAllNamespaces");
    reveal_strlit("ListForAllNamespaces");
    reveal_strlit("List");
    assert(id.subrange(0, 4)[0] == id[0]);
    let wid = derive_watch_id(id);
    assert(wid[0] == watch_prefix()[0]);
    let fal = for_all_namespaces_suffix();
    if crate::text::spec_ends_with(wid, fal) {
        let ll = wid.len() - fal.len();
        if ll == 0 {
            assert(wid.subrange(wid.len() - fal.len(), wid.len() as int) =~= wid);
            assert(wid[0] == fal[0]);
            assert(false);
        }
        assert(derive_watch_list_id(wid)[0] == wid.take(ll)[0]);
    } else {
        assert(derive_watch_list_id(wid)[0] == wid[0]);
    }
}

/// Presence of an operation id survives the swap-removal of another id.
pub proof fn lemma_swap_presence(ops: Seq<OperationView>, rid: Seq<char>, a: Seq<char>)
    requires
        op_present(ops, a),
        a != rid,
    ensures
        op_present(ops_swap_remove_id(ops, rid), a),
{
    lemma_op_index(ops, a);
    lemma_op_index(ops, rid);
    if op_present(ops, rid) {
        let ri = op_index(ops, rid);
        let ai = op_index(ops, a);
        let res = swap_remove_seq(ops, ri);
        lemma_op_index(res, a);
        if !op_present(res, a) {
            if ai < ops.len() - 1 {
                if ai == ri {
                    assert(ops[ai].id != rid && ops[ai].id == a);
                    assert(false);
                } else {
                    assert(res[ai].id == a);
                }
            } else {
                assert(ri < ops.len() - 1);
                assert(res[ri] == ops.last());
                assert(res[ri].id == a);
            }
        }
    }
}

/// The responses with an OK response inserted, referencing the well-known
/// WatchEvent definition.
fn responses_with_ok(rs: &Vec<crate::ir::Response>) -> (r: Vec<crate::ir::Response>)
    ensures
        crate::ir::view_responses(r@) == responses_insert(
            crate::ir::view_responses(rs@),
            200,
            crate::synth::synthesized_ref_schema(ok_description(), watch_event_path()),
        ),
{
    let ghost rv = crate::ir::view_responses(rs@);
    let ok_schema = crate::synth::make_ref_schema(
        "OK",
        "io.k8s.apimachinery.pkg.apis.meta.v1.WatchEvent",
    );
    let mut out = crate::ir::clone_responses(rs);
    proof {
        lemma_resp_index(rv, 200);
    }
    let mut fi: usize = 0;
    let mut have = false;
    while !have && fi < out.len()
        invariant
            fi <= out@.len(),
            crate::ir::view_responses(out@) == rv,
            out@.len() == rv.len(),
            have ==> fi < rv.len() && rv[fi as int].status == 200,
            forall|j: int| 0 <= j < fi ==> rv[j].status != 200,
        decreases out@.len() - fi, (if have { 0int } else { 1int }),
    {
        proof {
            assert(rv[fi as int] == out@[fi as int]@);
        }
        if out[fi].status == 200 {
            have = true;
        } else {
            fi = fi + 1;
        }
    }
    if have {
        {
            proof {
                lemma_resp_index(rv, 200);
                assert(resp_index(rv, 200) == fi);
            }
            let slot = &mut out[fi];
            *slot = crate::ir::Response { status: 200, schema: ok_schema };
            proof {
                assert(crate::ir::view_responses(out@) =~= responses_insert(
                    rv,
                    200,
                    crate::synth::synthesized_ref_schema(ok_description(), watch_event_path()),
                ));
            }
        }
    } else {
        proof {
            lemma_resp_index(rv, 200);
            assert(resp_index(rv, 200) == rv.len());
        }
        out.push(crate::ir::Response { status: 200, schema: ok_schema });
        proof {
            assert(crate::ir::view_responses(out@) =~= responses_insert(
                rv,
                200,
                crate::synth::synthesized_ref_schema(ok_description(), watch_event_path()),
            ));
        }
    }
    out
}

/// `list_kept_names` over one more canonical name.
pub proof fn lemma_list_kept_push(ns: Seq<Seq<char>>, n: Seq<char>)
    ensures
        list_kept_names(ns.push(n)) == if n != allow_watch_bookmarks_name() && n != watch_name() {
            list_kept_names(ns).push(n)
        } else {
            list_kept_names(ns)
        },
{
    assert(ns.push(n).drop_last() =~= ns);
}

/// `watch_kept_names` over one more canonical name.
pub proof fn lemma_watch_kept_push(ns: Seq<Seq<char>>, n: Seq<char>)
    ensures
        watch_kept_names(ns.push(n)) == if n != continue_name() && n != limit_name() && n
            != watch_name() {
            watch_kept_names(ns).push(n)
        } else {
            watch_kept_names(ns)
        },
{
    assert(ns.push(n).drop_last() =~= ns);
}

/// The full effect of the pass.
pub open spec fn apply_separate(s: ApiSpecView) -> ApiSpecView {
    ApiSpecView {
        definitions: def_insert(
            def_insert(s.definitions, list_optional_path(), list_optional_entry(s)),
            watch_optional_path(),
            watch_optional_entry(s),
        ),
        operations: separate_steps(s.operations, list_op_ids(s.operations)),
    }
}

/// Remove every deprecated watch and watch-list operation, rewrite every
/// list operation to carry the list aggregate, synthesize a watch sibling
/// for each, and install the list and watch aggregate definitions.  The
/// first list operation fixes the expected optional name set.  A watch
/// operation that was not synthesized here fails the pass.  On failure,
/// partially rewritten state may remain; the caller discards the spec.
#[verifier::loop_isolation(false)]
#[verifier::rlimit(100)]
pub fn separate_watch_from_list_operations(s: &mut ApiSpec) -> (r: Result<(), FixupError>)
    ensures
        r is Ok <==> can_separate(old(s)@),
        r is Ok ==> final(s)@ == apply_separate(old(s)@),
        r is Err ==> ((forall|i: int|
            0 <= i < old(s)@.operations.len() ==> !is_list_action(
                #[trigger] old(s)@.operations[i],
            )) ==> final(s)@ == old(s)@),
        r matches Err(e) ==> ({
            let ops = old(s)@.operations;
            let names = canonical_list_names(old(s)@);
            let fin = separate_steps(ops, list_op_ids(ops));
            let converted = Seq::new(
                list_op_ids(ops).len(),
                |w: int| derive_watch_id(list_op_ids(ops)[w]),
            );
            &&& ((forall|i: int| 0 <= i < ops.len() ==> !is_list_action(#[trigger] ops[i]))
                ==> e.message@ == "never found any list-watch operations"@)
            &&& ((exists|i: int| 0 <= i < ops.len() && is_list_action(#[trigger] ops[i])) ==> ({
                ||| (exists|i: int|
                    0 <= i < ops.len() && is_list_action(#[trigger] ops[i])
                        && !crate::text::spec_starts_with(ops[i].id, list_prefix())
                        && e.message@ == "operation "@ + ops[i].id
                        + " is a list operation but doesn't start with \"list\""@)
                ||| (exists|i: int, k: int|
                    #![trigger ops[i], names[k]]
                    0 <= i < ops.len() && is_list_action(ops[i]) && 0 <= k < names.len()
                        && !has_optional_param(ops[i].parameters, names[k]) && e.message@
                        == "operation "@ + ops[i].id
                        + " is a list operation but doesn't have a "@ + names[k] + " parameter"@)
                ||| (exists|i: int, j: int|
                    #![trigger ops[i].parameters[j]]
                    0 <= i < ops.len() && is_list_action(ops[i]) && 0 <= j
                        < ops[i].parameters.len() && !ops[i].parameters[j].required
                        && !names.contains(ops[i].parameters[j].name) && e.message@
                        == "operation "@ + ops[i].id
                        + " contains unexpected optional parameter "@
                        + ops[i].parameters[j].name)
                ||| (exists|i: int|
                    0 <= i < fin.len() && ((#[trigger] fin[i]).kubernetes_action == Some(
                        KubernetesAction::Watch,
                    ) || fin[i].kubernetes_action == Some(KubernetesAction::WatchList))
                        && !converted.contains(fin[i].id) && e.message@
                        == "found a watch operation that wasn't synthesized from a list operation: "@
                        + fin[i].id + ""@)
            }))
        }),
{
    let ghost ops0 = old(s)@.operations;
    let ghost fidx = list_op_index(ops0);
    let ghost canonical = canonical_list_names(old(s)@);
    let ghost ids = list_op_ids(ops0);
    proof {
        lemma_list_op_index(ops0);
    }
    let mut have_names = false;
    let mut names: Vec<String> = Vec::new();
    let mut list_agg: Vec<crate::ir::OptionalProperty> = Vec::new();
    let mut watch_agg: Vec<crate::ir::OptionalProperty> = Vec::new();
    let mut ids_exec: Vec<String> = Vec::new();
    let mut i: usize = 0;
    while i < s.operations.len()
        invariant
            i <= s.operations@.len(),
            s.operations@ == old(s).operations@,
            s.definitions@ == old(s).definitions@,
            ops0.len() == s.operations@.len(),
            have_names <==> (fidx < i),
            have_names ==> crate::ir::view_strings(names@) == canonical,
            have_names ==> crate::ir::view_optional_properties(list_agg@)
                == crate::fixup_patch::aggregate_props(
                ops0[fidx].parameters,
                crate::text::sort_names(list_kept_names(canonical)),
            ),
            have_names ==> crate::ir::view_optional_properties(watch_agg@)
                == crate::fixup_patch::aggregate_props(
                ops0[fidx].parameters,
                crate::text::sort_names(watch_kept_names(canonical)),
            ),
            !have_names ==> names@.len() == 0 && list_agg@.len() == 0 && watch_agg@.len() == 0,
            crate::ir::view_strings(ids_exec@) == list_op_ids(ops0.take(i as int)),
            forall|w: int|
                0 <= w < ids_exec@.len() ==> crate::text::spec_starts_with(
                    #[trigger] ids_exec@[w]@,
                    list_prefix(),
                ),
            forall|j: int|
                0 <= j < i && is_list_action(#[trigger] ops0[j]) ==> list_op_wellformed(
                    ops0[j],
                    canonical,
                ),
        decreases s.operations@.len() - i,
    {
        let ghost oldop = ops0[i as int];
        proof {
            assert(oldop == old(s).operations@[i as int]@);
            lemma_list_op_ids_take_step(ops0, i as int);
        }
        let is_l = match s.operations[i].kubernetes_action {
            Some(KubernetesAction::List) => true,
            _ => false,
        };
        if is_l {
            if !crate::text::str_starts_with(s.operations[i].id.as_str(), "list") {
                proof {
                    assert(!list_op_wellformed(oldop, canonical));
                    assert(!can_separate(old(s)@));
                }
                let msg = str_concat3(
                    "operation ",
                    s.operations[i].id.as_str(),
                    " is a list operation but doesn't start with \"list\"",
                );
                proof {
                    assert(msg@ == "operation "@ + oldop.id
                        + " is a list operation but doesn't start with \"list\""@);
                }
                return Err(FixupError { message: msg });
            }
            if !have_names {
                proof {
                    assert(fidx == i as int);
                }
                let params = &s.operations[i].parameters;
                let ghost pv = crate::ir::view_parameters(params@);
                proof {
                    assert(pv == oldop.parameters);
                }
                let mut j: usize = 0;
                while j < params.len()
                    invariant
                        j <= params@.len(),
                        pv == crate::ir::view_parameters(params@),
                        pv.len() == params@.len(),
                        crate::ir::view_strings(names@) == optional_param_names(
                            pv.take(j as int),
                        ),
                    decreases params@.len() - j,
                {
                    let ghost nprev = crate::ir::view_strings(names@);
                    proof {
                        crate::model::lemma_optional_param_names_take_step(pv, j as int);
                        assert(pv[j as int] == params@[j as int]@);
                    }
                    if !params[j].required {
                        if !crate::lookup::names_contain(&names, params[j].name.as_str()) {
                            let ghost n = params@[j as int].name@;
                            names.push(params[j].name.clone());
                            proof {
                                assert(crate::ir::view_strings(names@) =~= nprev.push(n));
                            }
                        }
                    }
                    j = j + 1;
                }
                proof {
                    assert(pv.take(pv.len() as int) =~= pv);
                    assert(crate::ir::view_strings(names@) == canonical);
                    crate::model::lemma_optional_param_names(pv);
                    assert forall|k: int| 0 <= k < canonical.len() implies has_optional_param(
                        oldop.parameters,
                        #[trigger] canonical[k],
                    ) by {
                        assert(canonical.contains(canonical[k]));
                        crate::model::lemma_optional_param_index(pv, canonical[k]);
                        if !has_optional_param(pv, canonical[k]) {
                            let w = choose|w: int|
                                0 <= w < pv.len() && #[trigger] pv[w].name == canonical[k]
                                    && !pv[w].required;
                            assert(false);
                        }
                    }
                    assert(list_op_wellformed(oldop, canonical));
                }
                let mut list_names: Vec<String> = Vec::new();
                let mut watch_names: Vec<String> = Vec::new();
                let mut fw: usize = 0;
                while fw < names.len()
                    invariant
                        fw <= names@.len(),
                        crate::ir::view_strings(names@) == canonical,
                        canonical.len() == names@.len(),
                        crate::ir::view_strings(list_names@) == list_kept_names(
                            canonical.take(fw as int),
                        ),
                        crate::ir::view_strings(watch_names@) == watch_kept_names(
                            canonical.take(fw as int),
                        ),
                    decreases names@.len() - fw,
                {
                    proof {
                        assert(canonical.take(fw as int + 1).drop_last() =~= canonical.take(
                            fw as int,
                        ));
                        assert(canonical.take(fw as int + 1).last() == canonical[fw as int]);
                        assert(canonical[fw as int] == names@[fw as int]@);
                    }
                    let ghost lprev = crate::ir::view_strings(list_names@);
                    let ghost wprev = crate::ir::view_strings(watch_names@);
                    let keep_l = !(crate::text::str_eq(
                        names[fw].as_str(),
                        "allowWatchBookmarks",
                    ) || crate::text::str_eq(names[fw].as_str(), "watch"));
                    let keep_w = !(crate::text::str_eq(names[fw].as_str(), "continue")
                        || crate::text::str_eq(names[fw].as_str(), "limit")
                        || crate::text::str_eq(names[fw].as_str(), "watch"));
                    if keep_l {
                        list_names.push(names[fw].clone());
                        proof {
                            assert(crate::ir::view_strings(list_names@) =~= lprev.push(
                                canonical[fw as int],
                            ));
                        }
                    }
                    if keep_w {
                        watch_names.push(names[fw].clone());
                        proof {
                            assert(crate::ir::view_strings(watch_names@) =~= wprev.push(
                                canonical[fw as int],
                            ));
                        }
                    }
                    fw = fw + 1;
                }
                proof {
                    assert(canonical.take(canonical.len() as int) =~= canonical);
                }
                let sorted_list = crate::lookup::sort_names_vec(&list_names);
                let sorted_watch = crate::lookup::sort_names_vec(&watch_names);
                let ghost slv = crate::ir::view_strings(sorted_list@);
                let ghost swv = crate::ir::view_strings(sorted_watch@);
                proof {
                    assert(slv == crate::text::sort_names(list_kept_names(canonical)));
                    assert(swv == crate::text::sort_names(watch_kept_names(canonical)));
                }
                let mut bk: usize = 0;
                while bk < sorted_list.len()
                    invariant
                        bk <= sorted_list@.len(),
                        slv == crate::ir::view_strings(sorted_list@),
                        slv.len() == sorted_list@.len(),
                        list_agg@.len() == bk,
                        forall|w: int|
                            0 <= w < bk ==> #[trigger] list_agg@[w]@
                                == (crate::model::OptionalPropertyView {
                                name: slv[w],
                                schema: pv[crate::model::optional_param_index(
                                    pv,
                                    slv[w],
                                )].schema,
                            }),
                    decreases sorted_list@.len() - bk,
                {
                    proof {
                        assert(slv[bk as int] == sorted_list@[bk as int]@);
                    }
                    match crate::lookup::find_optional_param(params, sorted_list[bk].as_str()) {
                        Some(pi) => {
                            proof {
                                assert(pv[pi as int] == params@[pi as int]@);
                            }
                            list_agg.push(
                                crate::ir::OptionalProperty {
                                    name: sorted_list[bk].clone(),
                                    schema: params[pi].schema.deep_clone(),
                                },
                            );
                        },
                        None => {
                            proof {
                                assert(slv.contains(slv[bk as int]));
                                crate::text::lemma_sort_names_contains(
                                    list_kept_names(canonical),
                                    slv[bk as int],
                                );
                                lemma_list_kept_subset(canonical, slv[bk as int]);
                                assert(canonical.contains(slv[bk as int]));
                                crate::model::lemma_optional_param_names(pv);
                                let w = choose|w: int|
                                    0 <= w < pv.len() && #[trigger] pv[w].name == slv[bk as int]
                                        && !pv[w].required;
                                crate::model::lemma_optional_param_index(pv, slv[bk as int]);
                                assert(false);
                            }
                            return Err(FixupError::new("never found any list-watch operations"));
                        },
                    }
                    bk = bk + 1;
                }
                proof {
                    crate::ir::lemma_view_optional_properties(list_agg@);
                    assert forall|w: int|
                        0 <= w < list_agg@.len() implies crate::ir::view_optional_properties(
                        list_agg@,
                    )[w] == crate::fixup_patch::aggregate_props(
                        pv,
                        crate::text::sort_names(list_kept_names(canonical)),
                    )[w] by {
                        assert(crate::ir::view_optional_properties(list_agg@)[w]
                            == crate::ir::view_optional_property(list_agg@[w]));
                        assert(list_agg@[w]@ == (crate::model::OptionalPropertyView {
                            name: slv[w],
                            schema: pv[crate::model::optional_param_index(pv, slv[w])].schema,
                        }));
                    }
                    assert(crate::ir::view_optional_properties(list_agg@)
                        =~= crate::fixup_patch::aggregate_props(
                        pv,
                        crate::text::sort_names(list_kept_names(canonical)),
                    ));
                }
                let mut bw: usize = 0;
                while bw < sorted_watch.len()
                    invariant
                        bw <= sorted_watch@.len(),
                        swv == crate::ir::view_strings(sorted_watch@),
                        swv.len() == sorted_watch@.len(),
                        watch_agg@.len() == bw,
                        forall|w: int|
                            0 <= w < bw ==> #[trigger] watch_agg@[w]@
                                == (crate::model::OptionalPropertyView {
                                name: swv[w],
                                schema: pv[crate::model::optional_param_index(
                                    pv,
                                    swv[w],
                                )].schema,
                            }),
                    decreases sorted_watch@.len() - bw,
                {
                    proof {
                        assert(swv[bw as int] == sorted_watch@[bw as int]@);
                    }
                    match crate::lookup::find_optional_param(params, sorted_watch[bw].as_str()) {
                        Some(pi) => {
                            proof {
                                assert(pv[pi as int] == params@[pi as int]@);
                            }
                            watch_agg.push(
                                crate::ir::OptionalProperty {
                                    name: sorted_watch[bw].clone(),
                                    schema: params[pi].schema.deep_clone(),
                                },
                            );
                        },
                        None => {
                            proof {
                                assert(swv.contains(swv[bw as int]));
                                crate::text::lemma_sort_names_contains(
                                    watch_kept_names(canonical),
                                    swv[bw as int],
                                );
                                lemma_watch_kept_subset(canonical, swv[bw as int]);
                                assert(canonical.contains(swv[bw as int]));
                                crate::model::lemma_optional_param_names(pv);
                                let w = choose|w: int|
                                    0 <= w < pv.len() && #[trigger] pv[w].name == swv[bw as int]
                                        && !pv[w].required;
                                crate::model::lemma_optional_param_index(pv, swv[bw as int]);
                                assert(false);
                            }
                            return Err(FixupError::new("never found any list-watch operations"));
                        },
                    }
                    bw = bw + 1;
                }
                proof {
                    crate::ir::lemma_view_optional_properties(watch_agg@);
                    assert forall|w: int|
                        0 <= w < watch_agg@.len() implies crate::ir::view_optional_properties(
                        watch_agg@,
                    )[w] == crate::fixup_patch::aggregate_props(
                        pv,
                        crate::text::sort_names(watch_kept_names(canonical)),
                    )[w] by {
                        assert(crate::ir::view_optional_properties(watch_agg@)[w]
                            == crate::ir::view_optional_property(watch_agg@[w]));
                        assert(watch_agg@[w]@ == (crate::model::OptionalPropertyView {
                            name: swv[w],
                            schema: pv[crate::model::optional_param_index(pv, swv[w])].schema,
                        }));
                    }
                    assert(crate::ir::view_optional_properties(watch_agg@)
                        =~= crate::fixup_patch::aggregate_props(
                        pv,
                        crate::text::sort_names(watch_kept_names(canonical)),
                    ));
                }
                have_names = true;
            } else {
                let mut k: usize = 0;
                while k < names.len()
                    invariant
                        k <= names@.len(),
                        canonical.len() == names@.len(),
                        forall|m: int|
                            0 <= m < k ==> has_optional_param(
                                oldop.parameters,
                                #[trigger] canonical[m],
                            ),
                    decreases names@.len() - k,
                {
                    let f = crate::lookup::find_optional_param(
                        &s.operations[i].parameters,
                        names[k].as_str(),
                    );
                    match f {
                        Some(_) => {},
                        None => {
                            proof {
                                assert(crate::ir::view_strings(names@)[k as int] == names@[
                                    k as int]@);
                                assert(!has_optional_param(oldop.parameters, canonical[k as int]));
                                assert(!list_op_wellformed(oldop, canonical));
                                assert(!can_separate(old(s)@));
                            }
                            let msg = str_concat3(
                                "operation ",
                                s.operations[i].id.as_str(),
                                " is a list operation but doesn't have a ",
                            );
                            let msg = str_concat3(msg.as_str(), names[k].as_str(), " parameter");
                            proof {
                                assert(msg@ == "operation "@ + oldop.id
                                    + " is a list operation but doesn't have a "@ + canonical[
                                    k as int] + " parameter"@);
                            }
                            return Err(FixupError { message: msg });
                        },
                    }
                    k = k + 1;
                }
                let mut m: usize = 0;
                while m < s.operations[i].parameters.len()
                    invariant
                        m <= s.operations@[i as int].parameters@.len(),
                        forall|w: int|
                            0 <= w < m && !(#[trigger] oldop.parameters[w]).required
                                ==> canonical.contains(oldop.parameters[w].name),
                    decreases s.operations@[i as int].parameters@.len() - m,
                {
                    let p_required = s.operations[i].parameters[m].required;
                    let in_names = crate::lookup::names_contain(
                        &names,
                        s.operations[i].parameters[m].name.as_str(),
                    );
                    proof {
                        assert(oldop.parameters[m as int] == s.operations@[i as int].parameters@[
                            m as int]@);
                    }
                    if !p_required && !in_names {
                        proof {
                            assert(!list_op_wellformed(oldop, canonical));
                            assert(!can_separate(old(s)@));
                        }
                        let msg = str_concat3(
                            "operation ",
                            s.operations[i].id.as_str(),
                            " contains unexpected optional parameter ",
                        );
                        let msg = str_concat(
                            msg.as_str(),
                            s.operations[i].parameters[m].name.as_str(),
                        );
                        proof {
                            assert(msg@ == "operation "@ + oldop.id
                                + " contains unexpected optional parameter "@ + oldop.parameters[
                                m as int].name);
                        }
                        return Err(FixupError { message: msg });
                    }
                    m = m + 1;
                }
                proof {
                    assert(list_op_wellformed(oldop, canonical));
                }
            }
            ids_exec.push(s.operations[i].id.clone());
            proof {
                assert(crate::ir::view_strings(ids_exec@) =~= list_op_ids(
                    ops0.take(i as int + 1),
                ));
            }
        }
        i = i + 1;
    }
    proof {
        assert(ops0.take(ops0.len() as int) =~= ops0);
    }
    if !have_names {
        proof {
            assert(!can_separate(old(s)@));
            assert(s@ =~= old(s)@);
        }
        return Err(FixupError::new("never found any list-watch operations"));
    }
    let list_entry = crate::ir::Schema {
        description: Some(crate::text::str_copy("Common parameters for all list operations.")),
        kind: SchemaKind::Ty(Type::ListOptional(list_agg)),
        kubernetes_group_kind_versions: None,
        has_corresponding_list_type: false,
    };
    proof {
        assert(list_entry@ == list_optional_entry(old(s)@));
    }
    crate::lookup::insert_definition(
        &mut s.definitions,
        crate::text::str_copy("io.k8s.ListOptional"),
        list_entry,
    );
    let watch_entry = crate::ir::Schema {
        description: Some(crate::text::str_copy("Common parameters for all watch operations.")),
        kind: SchemaKind::Ty(Type::WatchOptional(watch_agg)),
        kubernetes_group_kind_versions: None,
        has_corresponding_list_type: false,
    };
    proof {
        assert(watch_entry@ == watch_optional_entry(old(s)@));
    }
    crate::lookup::insert_definition(
        &mut s.definitions,
        crate::text::str_copy("io.k8s.WatchOptional"),
        watch_entry,
    );
    let ghost defs_target = def_insert(
        def_insert(old(s)@.definitions, list_optional_path(), list_optional_entry(old(s)@)),
        watch_optional_path(),
        watch_optional_entry(old(s)@),
    );
    proof {
        assert(crate::ir::view_definitions(s.definitions@) == defs_target);
        assert forall|w: int| 0 <= w < ids.len() implies op_present(
            crate::ir::view_operations(s.operations@),
            #[trigger] ids[w],
        ) by {
            lemma_ids_present(ops0, w);
        }
    }
    let mut converted: Vec<String> = Vec::new();
    let mut k: usize = 0;
    while k < ids_exec.len()
        invariant
            k <= ids_exec@.len(),
            crate::ir::view_definitions(s.definitions@) == defs_target,
            ids.len() == ids_exec@.len(),
            forall|w: int| 0 <= w < ids.len() ==> #[trigger] ids[w] == ids_exec@[w]@,
            crate::ir::view_operations(s.operations@) == separate_steps(
                ops0,
                ids.take(k as int),
            ),
            forall|w: int|
                k <= w < ids.len() ==> op_present(
                    crate::ir::view_operations(s.operations@),
                    #[trigger] ids[w],
                ),
            converted@.len() == k,
            forall|w: int| 0 <= w < k ==> #[trigger] converted@[w]@ == derive_watch_id(ids[w]),
        decreases ids_exec@.len() - k,
    {
        let ghost cur = crate::ir::view_operations(s.operations@);
        let ghost id_k = ids[k as int];
        proof {
            lemma_separate_steps_split(ops0, ids.take(k as int + 1), k as int);
            assert(ids.take(k as int + 1).take(k as int) =~= ids.take(k as int));
            assert(ids.take(k as int + 1).skip(k as int) =~= seq![id_k]);
            assert(seq![id_k].drop_first() =~= Seq::<Seq<char>>::empty());
            lemma_derived_id_heads(id_k);
        }
        let pl = "list".unicode_len();
        let idl = crate::text::str_len(ids_exec[k].as_str());
        let tail = crate::text::str_slice(ids_exec[k].as_str(), pl, idl);
        let wid = str_concat("watch", tail.as_str());
        proof {
            assert(wid@ == derive_watch_id(id_k));
        }
        let fal = "ForAllNamespaces".unicode_len();
        let wlid = if crate::text::str_ends_with(wid.as_str(), "ForAllNamespaces") {
            let wl = crate::text::str_len(wid.as_str());
            str_concat(
                crate::text::str_slice(wid.as_str(), 0, wl - fal).as_str(),
                "ListForAllNamespaces",
            )
        } else {
            str_concat(wid.as_str(), "List")
        };
        proof {
            assert(wlid@ == derive_watch_list_id(wid@));
        }
        match crate::lookup::find_operation(&s.operations, wid.as_str()) {
            Some(wi) => {
                s.operations.swap_remove(wi);
                proof {
                    assert(crate::ir::view_operations(s.operations@) =~= ops_swap_remove_id(
                        cur,
                        wid@,
                    ));
                }
            },
            None => {
                proof {
                    assert(ops_swap_remove_id(cur, wid@) == cur);
                }
            },
        }
        let ghost cur1 = ops_swap_remove_id(cur, wid@);
        proof {
            assert(crate::ir::view_operations(s.operations@) == cur1);
            assert forall|w: int| k <= w < ids.len() implies op_present(
                cur1,
                #[trigger] ids[w],
            ) by {
                lemma_derived_id_heads(ids[w]);
                assert(ids[w] != wid@);
                lemma_swap_presence(cur, wid@, ids[w]);
            }
        }
        match crate::lookup::find_operation(&s.operations, wlid.as_str()) {
            Some(wli) => {
                s.operations.swap_remove(wli);
                proof {
                    assert(crate::ir::view_operations(s.operations@) =~= ops_swap_remove_id(
                        cur1,
                        wlid@,
                    ));
                }
            },
            None => {
                proof {
                    assert(ops_swap_remove_id(cur1, wlid@) == cur1);
                }
            },
        }
        let ghost cur2 = ops_swap_remove_id(cur1, wlid@);
        proof {
            assert(crate::ir::view_operations(s.operations@) == cur2);
            assert forall|w: int| k <= w < ids.len() implies op_present(
                cur2,
                #[trigger] ids[w],
            ) by {
                lemma_derived_id_heads(ids[w]);
                assert(ids[w] != wlid@);
                lemma_swap_presence(cur1, wlid@, ids[w]);
            }
        }
        let li = match crate::lookup::find_operation(&s.operations, ids_exec[k].as_str()) {
            Some(x) => x,
            None => {
                proof {
                    assert(false);
                }
                return Err(FixupError::new("never found any list-watch operations"));
            },
        };
        let ghost orig = cur2[li as int];
        proof {
            lemma_op_index(cur2, id_k);
            assert(orig == s.operations@[li as int]@);
            assert(orig.id == id_k);
            assert(orig.responses == crate::ir::view_responses(
                s.operations@[li as int].responses@,
            ));
            assert(orig.parameters == crate::ir::view_parameters(
                s.operations@[li as int].parameters@,
            ));
        }
        let base = match &s.operations[li].description {
            Some(d) => {
                if d.unicode_len() == 0 {
                    String::new()
                } else {
                    str_concat(d.as_str(), "\n\n")
                }
            },
            None => String::new(),
        };
        proof {
            assert(base@ =~= base_description(orig));
        }
        let list_desc = str_concat(
            base.as_str(),
            "This operation only supports listing all items of this type.\n",
        );
        let watch_desc = str_concat(
            base.as_str(),
            "This operation only supports watching one item, or a list of items, of this type for changes.\n",
        );
        let mut list_params = crate::lookup::filter_required_params(&s.operations[li].parameters);
        list_params.push(
            crate::synth::make_ref_param(
                crate::model::ParameterLocation::Query,
                "optional",
                "Optional parameters. Use `Default::default()` to not pass any.",
                "io.k8s.ListOptional",
            ),
        );
        let mut watch_params = crate::lookup::filter_required_params(&s.operations[li].parameters);
        watch_params.push(
            crate::synth::make_ref_param(
                crate::model::ParameterLocation::Query,
                "optional",
                "Optional parameters. Use `Default::default()` to not pass any.",
                "io.k8s.WatchOptional",
            ),
        );
        let new_list = crate::ir::Operation {
            id: s.operations[li].id.clone(),
            description: Some(list_desc),
            kubernetes_action: s.operations[li].kubernetes_action,
            kubernetes_group_kind_version: match &s.operations[li].kubernetes_group_kind_version {
                Some(g) => Some(g.deep_clone()),
                None => None,
            },
            parameters: list_params,
            responses: crate::ir::clone_responses(&s.operations[li].responses),
        };
        let new_watch = crate::ir::Operation {
            id: wid.clone(),
            description: Some(watch_desc),
            kubernetes_action: Some(KubernetesAction::Watch),
            kubernetes_group_kind_version: match &s.operations[li].kubernetes_group_kind_version {
                Some(g) => Some(g.deep_clone()),
                None => None,
            },
            parameters: watch_params,
            responses: responses_with_ok(&s.operations[li].responses),
        };
        proof {
            assert(crate::ir::view_parameters(new_list.parameters@) =~= required_params(
                orig.parameters,
            ).push(
                crate::synth::synthesized_ref_param(
                    crate::model::ParameterLocation::Query,
                    optional_name(),
                    optional_parameter_description(),
                    list_optional_path(),
                ),
            ));
            assert(crate::ir::view_parameters(new_watch.parameters@) =~= required_params(
                orig.parameters,
            ).push(
                crate::synth::synthesized_ref_param(
                    crate::model::ParameterLocation::Query,
                    optional_name(),
                    optional_parameter_description(),
                    watch_optional_path(),
                ),
            ));
            assert(new_list@ == new_list_op(orig));
            assert(new_watch@ == new_watch_op(orig));
        }
        let slot = &mut s.operations[li];
        *slot = new_list;
        s.operations.push(new_watch);
        converted.push(wid);
        proof {
            assert(crate::ir::view_operations(s.operations@) =~= cur2.update(
                li as int,
                new_list_op(orig),
            ).push(new_watch_op(orig)));
            assert(crate::ir::view_operations(s.operations@) == separate_step(cur, id_k));
            assert(separate_steps(separate_step(cur, id_k), Seq::<Seq<char>>::empty())
                == separate_step(cur, id_k));
            assert(separate_steps(cur, seq![id_k]) == separate_step(cur, id_k));
            assert(crate::ir::view_operations(s.operations@) == separate_steps(
                ops0,
                ids.take(k as int + 1),
            ));
            let newview = crate::ir::view_operations(s.operations@);
            assert forall|w: int| k + 1 <= w < ids.len() implies op_present(
                newview,
                #[trigger] ids[w],
            ) by {
                lemma_op_index(cur2, ids[w]);
                let q = op_index(cur2, ids[w]);
                lemma_op_index(newview, ids[w]);
                if !op_present(newview, ids[w]) {
                    if q == li as int {
                        assert(newview[q].id == orig.id);
                        assert(orig.id == ids[w]);
                        assert(false);
                    } else {
                        assert(newview[q].id == ids[w]);
                        assert(false);
                    }
                }
            }
        }
        k = k + 1;
    }
    proof {
        assert(ids.take(ids.len() as int) =~= ids);
        assert(crate::ir::view_strings(converted@) =~= Seq::new(
            ids.len(),
            |w: int| derive_watch_id(ids[w]),
        ));
    }
    let ghost final_ops = separate_steps(ops0, ids);
    let mut ci: usize = 0;
    while ci < s.operations.len()
        invariant
            ci <= s.operations@.len(),
            crate::ir::view_definitions(s.definitions@) == defs_target,
            crate::ir::view_operations(s.operations@) == final_ops,
            s.operations@.len() == final_ops.len(),
            crate::ir::view_strings(converted@) == Seq::new(
                ids.len(),
                |w: int| derive_watch_id(ids[w]),
            ),
            forall|j: int|
                0 <= j < ci && ((#[trigger] final_ops[j]).kubernetes_action == Some(
                    KubernetesAction::Watch,
                ) || final_ops[j].kubernetes_action == Some(KubernetesAction::WatchList))
                    ==> crate::ir::view_strings(converted@).contains(final_ops[j].id),
        decreases s.operations@.len() - ci,
    {
        let ghost fop = final_ops[ci as int];
        proof {
            assert(fop == s.operations@[ci as int]@);
        }
        let is_watchish = match s.operations[ci].kubernetes_action {
            Some(KubernetesAction::Watch) => true,
            Some(KubernetesAction::WatchList) => true,
            _ => false,
        };
        if is_watchish {
            if !crate::lookup::names_contain(&converted, s.operations[ci].id.as_str()) {
                proof {
                    assert(!all_watch_converted(
                        final_ops,
                        Seq::new(ids.len(), |w: int| derive_watch_id(ids[w])),
                    ));
                    assert(!can_separate(old(s)@));
                }
                let msg = str_concat3(
                    "found a watch operation that wasn't synthesized from a list operation: ",
                    s.operations[ci].id.as_str(),
                    "",
                );
                proof {
                    assert(msg@
                        == "found a watch operation that wasn't synthesized from a list operation: "@
                        + fop.id + ""@);
                }
                return Err(FixupError { message: msg });
            }
        }
        ci = ci + 1;
    }
    proof {
        assert(all_watch_converted(
            final_ops,
            Seq::new(ids.len(), |w: int| derive_watch_id(ids[w])),
        ));
        assert(fidx < ops0.len());
        assert(can_separate(old(s)@));
        assert(s@ =~= apply_separate(old(s)@));
    }
    Ok(())
}

/// Every collected list-operation id is the id of some operation.
proof fn lemma_ids_present(ops: Seq<OperationView>, w: int)
    requires
        0 <= w < list_op_ids(ops).len(),
    ensures
        op_present(ops, list_op_ids(ops)[w]),
    decreases ops.len(),
{
    if ops.len() != 0 {
        let rest = list_op_ids(ops.drop_last());
        if w < rest.len() {
            lemma_ids_present(ops.drop_last(), w);
            lemma_op_index(ops.drop_last(), list_op_ids(ops)[w]);
            lemma_op_index(ops, list_op_ids(ops)[w]);
            let q = op_index(ops.drop_last(), list_op_ids(ops)[w]);
            if !op_present(ops, list_op_ids(ops)[w]) {
                assert(ops[q].id == ops.drop_last()[q].id);
                assert(false);
            }
        } else {
            assert(is_list_action(ops.last()));
            assert(list_op_ids(ops)[w] == ops.last().id);
            lemma_op_index(ops, ops.last().id);
            if !op_present(ops, ops.last().id) {
                assert(ops[ops.len() - 1].id == ops.last().id);
                assert(false);
            }
        }
    }
}

} // verus!
