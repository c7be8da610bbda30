//! The pass that validates the response shapes of delete, delete-collection,
//! list, patch and watch operations, and installs the four marker
//! definitions the downstream generator keys off of.

use vstd::prelude::*;

use crate::error::FixupError;
use crate::fixup_delete::{is_delete, is_delete_collection};
use crate::fixup_patch::is_patch_op;
use crate::ir::{ApiSpec, Operation, SchemaKind, Type};
use crate::lookup::insert_definition;
use crate::model::{ApiSpecView, KubernetesAction, OperationView, ResponseView, SchemaKindView,
    SchemaView, TypeView, def_insert};
use crate::names::{delete_response_description, delete_response_path, dot_text,
    list_response_description, list_response_path, patch_response_description,
    patch_response_path, status_path, watch_event_path, watch_response_description,
    watch_response_path};
use crate::text::{spec_ends_with, str_concat3, str_copy, str_ends_with, str_eq};

verus! {

/// Whether the operation is a list operation.
pub open spec fn is_list_op(op: OperationView) -> bool {
    op.kubernetes_action == Some(KubernetesAction::List)
}

/// Whether the operation is a watch operation.
pub open spec fn is_watch_op(op: OperationView) -> bool {
    op.kubernetes_action == Some(KubernetesAction::Watch)
}

/// Whether the response set is exactly one OK response.
pub open spec fn only_ok_status(rs: Seq<ResponseView>) -> bool {
    rs.len() == 1 && rs[0].status == 200
}

/// Whether the response status set is `{200}` or `{200, 202}`.
pub open spec fn delete_status_ok(rs: Seq<ResponseView>) -> bool {
    ||| rs.len() == 1 && rs[0].status == 200
    ||| rs.len() == 2 && ((rs[0].status == 200 && rs[1].status == 202) || (rs[0].status == 202
        && rs[1].status == 200))
}

/// Whether the schema is a reference to the well-known Status definition.
pub open spec fn is_status_ref(k: SchemaKindView) -> bool {
    k matches SchemaKindView::Ref(rp) && rp.path == status_path()
}

/// Whether the schema is a reference whose path ends with `suffix`.
pub open spec fn is_ref_with_suffix(k: SchemaKindView, suffix: Seq<char>) -> bool {
    k matches SchemaKindView::Ref(rp) && spec_ends_with(rp.path, suffix)
}

/// Whether the schema is a list-reference whose item path ends with
/// `suffix`.
pub open spec fn is_list_ref_with_suffix(k: SchemaKindView, suffix: Seq<char>) -> bool {
    match k {
        SchemaKindView::Ty(TypeView::ListRef { items }) => match *items {
            SchemaKindView::Ref(rp) => spec_ends_with(rp.path, suffix),
            _ => false,
        },
        _ => false,
    }
}

/// Whether the executable schema kind is a list-reference whose item path
/// ends with `suffix`.
fn kind_is_list_ref_with_suffix(k: &SchemaKind, suffix: &str) -> (r: bool)
    ensures
        r == is_list_ref_with_suffix(crate::ir::view_schema_kind(*k), suffix@),
{
    match k {
        SchemaKind::Ty(t) => match t {
            Type::ListRef { items } => {
                let inner: &SchemaKind = &**items;
                proof {
                    assert(crate::ir::view_schema_kind(*k) == SchemaKindView::Ty(
                        crate::ir::view_type(*t),
                    ));
                    assert(crate::ir::view_type(*t) == (TypeView::ListRef {
                        items: Box::new(crate::ir::view_schema_kind(*inner)),
                    }));
                }
                match inner {
                    SchemaKind::Ref(rp) => str_ends_with(rp.path.as_str(), suffix),
                    _ => false,
                }
            },
            _ => false,
        },
        _ => false,
    }
}

/// Whether the schema is a reference to the well-known WatchEvent
/// definition.
pub open spec fn is_watch_event_ref(k: SchemaKindView) -> bool {
    k matches SchemaKindView::Ref(rp) && rp.path == watch_event_path()
}

/// The expected responses of a delete or delete-collection operation.
pub open spec fn delete_responses_ok(op: OperationView) -> bool {
    &&& (is_delete(op) ==> delete_status_ok(op.responses))
    &&& (is_delete_collection(op) ==> only_ok_status(op.responses))
    &&& forall|j: int|
        0 <= j < op.responses.len() ==> is_status_ref(#[trigger] op.responses[j].schema.kind)
}

/// The expected responses of a list operation: one OK response whose body
/// is a list-reference to the operation's own kind.
pub open spec fn list_responses_ok(op: OperationView) -> bool {
    &&& only_ok_status(op.responses)
    &&& op.kubernetes_group_kind_version is Some
    &&& forall|j: int|
        0 <= j < op.responses.len() ==> is_list_ref_with_suffix(
            #[trigger] op.responses[j].schema.kind,
            dot_text() + op.kubernetes_group_kind_version->0.kind,
        )
}

/// The expected responses of a patch operation: one OK response whose body
/// references the operation's own kind.
pub open spec fn patch_responses_ok(op: OperationView) -> bool {
    &&& only_ok_status(op.responses)
    &&& op.kubernetes_group_kind_version is Some
    &&& forall|j: int|
        0 <= j < op.responses.len() ==> is_ref_with_suffix(
            #[trigger] op.responses[j].schema.kind,
            dot_text() + op.kubernetes_group_kind_version->0.kind,
        )
}

/// The expected responses of a watch operation: one OK response whose body
/// references the well-known WatchEvent definition.
pub open spec fn watch_responses_ok(op: OperationView) -> bool {
    &&& only_ok_status(op.responses)
    &&& forall|j: int|
        0 <= j < op.responses.len() ==> is_watch_event_ref(
            #[trigger] op.responses[j].schema.kind,
        )
}

/// Whether every delete, delete-collection, list, patch and watch operation
/// has the expected response shape.
pub open spec fn can_response_types(s: ApiSpecView) -> bool {
    forall|i: int|
        0 <= i < s.operations.len() ==> {
            let op = #[trigger] s.operations[i];
            &&& ((is_delete(op) || is_delete_collection(op)) ==> delete_responses_ok(op))
            &&& (is_list_op(op) ==> list_responses_ok(op))
            &&& (is_patch_op(op) ==> patch_responses_ok(op))
            &&& (is_watch_op(op) ==> watch_responses_ok(op))
        }
}

/// A marker definition: a fixed description and a payload-free type shape.
pub open spec fn marker_entry(description: Seq<char>, ty: TypeView) -> SchemaView {
    SchemaView {
        description: Some(description),
        kind: SchemaKindView::Ty(ty),
        kubernetes_group_kind_versions: None,
        has_corresponding_list_type: false,
    }
}

/// The four response marker definitions added; everything else unchanged.
pub open spec fn apply_response_types(s: ApiSpecView) -> ApiSpecView {
    ApiSpecView {
        definitions: def_insert(
            def_insert(
                def_insert(
                    def_insert(
                        s.definitions,
                        delete_response_path(),
                        marker_entry(delete_response_description(), TypeView::DeleteResponse),
                    ),
                    list_response_path(),
                    marker_entry(list_response_description(), TypeView::ListResponse),
                ),
                patch_response_path(),
                marker_entry(patch_response_description(), TypeView::PatchResponse),
            ),
            watch_response_path(),
            marker_entry(watch_response_description(), TypeView::WatchResponse),
        ),
        operations: s.operations,
    }
}

/// The status codes of the responses, in order.
pub open spec fn statuses(rs: Seq<ResponseView>) -> Seq<u16> {
    Seq::new(rs.len(), |i: int| rs[i].status)
}

/// `c` inserted into `cs` before the first code it precedes or equals.
pub open spec fn insert_code(c: u16, cs: Seq<u16>) -> Seq<u16>
    decreases cs.len(),
{
    if cs.len() == 0 {
        seq![c]
    } else if c <= cs[0] {
        seq![c] + cs
    } else {
        seq![cs[0]] + insert_code(c, cs.drop_first())
    }
}

/// The status codes in ascending order.
pub open spec fn sort_codes(cs: Seq<u16>) -> Seq<u16>
    decreases cs.len(),
{
    if cs.len() == 0 {
        Seq::empty()
    } else {
        insert_code(cs[0], sort_codes(cs.drop_first()))
    }
}

/// `insert_code` places `c` exactly at the first index it precedes.
pub proof fn lemma_insert_code_at(c: u16, cs: Seq<u16>, idx: int)
    requires
        0 <= idx <= cs.len(),
        forall|j: int| 0 <= j < idx ==> !(c <= #[trigger] cs[j]),
        idx < cs.len() ==> c <= cs[idx],
    ensures
        insert_code(c, cs) == cs.take(idx) + seq![c] + cs.skip(idx),
    decreases cs.len(),
{
    if cs.len() == 0 {
        assert(insert_code(c, cs) =~= cs.take(idx) + seq![c] + cs.skip(idx));
    } else if c <= cs[0] {
        assert(idx == 0);
        assert(insert_code(c, cs) =~= cs.take(0) + seq![c] + cs.skip(0));
    } else {
        assert(idx >= 1);
        lemma_insert_code_at(c, cs.drop_first(), idx - 1);
        assert forall|j: int| 0 <= j < idx - 1 implies !(c <= #[trigger] cs.drop_first()[j]) by {
            assert(cs.drop_first()[j] == cs[j + 1]);
        }
        assert(insert_code(c, cs) =~= cs.take(idx) + seq![c] + cs.skip(idx));
    }
}

/// The sorted codes joined with commas.
pub open spec fn joined_codes(cs: Seq<u16>) -> Seq<char>
    decreases cs.len(),
{
    if cs.len() == 0 {
        Seq::empty()
    } else if cs.len() == 1 {
        crate::text::spec_decimal(cs[0] as int)
    } else {
        joined_codes(cs.drop_last()) + ", "@ + crate::text::spec_decimal(cs.last() as int)
    }
}

/// The sorted code set rendered as "[a, b]".
pub open spec fn code_list_text(cs: Seq<u16>) -> Seq<char> {
    "["@ + joined_codes(cs) + "]"@
}

/// Insert a status code into a sorted vector.
fn insert_code_sorted(sorted: &mut Vec<u16>, c: u16)
    ensures
        final(sorted)@ == insert_code(c, old(sorted)@),
{
    let ghost sv = old(sorted)@;
    let mut idx: usize = 0;
    let mut found = false;
    while !found && idx < sorted.len()
        invariant
            idx <= sorted@.len(),
            sorted@ == sv,
            forall|j: int| 0 <= j < idx ==> !(c <= #[trigger] sv[j]),
            found ==> idx < sv.len() && c <= sv[idx as int],
        decreases sorted@.len() - idx, (if found { 0int } else { 1int }),
    {
        if c <= sorted[idx] {
            found = true;
        } else {
            idx = idx + 1;
        }
    }
    proof {
        lemma_insert_code_at(c, sv, idx as int);
    }
    sorted.insert(idx, c);
    proof {
        assert(sorted@ =~= sv.take(idx as int) + seq![c] + sv.skip(idx as int));
    }
}

/// The operation's response status codes, sorted ascending, rendered as
/// "[a, b]".
#[verifier::loop_isolation(false)]
fn status_codes_text(rs: &Vec<crate::ir::Response>) -> (r: String)
    ensures
        r@ == code_list_text(sort_codes(statuses(crate::ir::view_responses(rs@)))),
{
    let ghost rv = crate::ir::view_responses(rs@);
    let ghost cv = statuses(rv);
    let mut codes: Vec<u16> = Vec::new();
    let mut i: usize = 0;
    while i < rs.len()
        invariant
            i <= rs@.len(),
            codes@.len() == i,
            forall|j: int| 0 <= j < i ==> #[trigger] codes@[j] == cv[j],
        decreases rs@.len() - i,
    {
        proof {
            assert(rv[i as int] == rs@[i as int]@);
        }
        codes.push(rs[i].status);
        i = i + 1;
    }
    proof {
        assert(codes@ =~= cv);
    }
    let mut sorted: Vec<u16> = Vec::new();
    proof {
        assert(cv.skip(codes@.len() as int) =~= Seq::<u16>::empty());
        assert(sorted@ =~= Seq::<u16>::empty());
    }
    let mut w: usize = codes.len();
    while w > 0
        invariant
            w <= codes@.len(),
            codes@ == cv,
            sorted@ == sort_codes(cv.skip(w as int)),
        decreases w,
    {
        w = w - 1;
        proof {
            assert(cv.skip(w as int)[0] == cv[w as int]);
            assert(cv.skip(w as int).drop_first() =~= cv.skip(w as int + 1));
        }
        insert_code_sorted(&mut sorted, codes[w]);
    }
    proof {
        assert(cv.skip(0) =~= cv);
    }
    let ghost so = sort_codes(cv);
    let mut out = str_copy("[");
    let mut k: usize = 0;
    while k < sorted.len()
        invariant
            k <= sorted@.len(),
            sorted@ == so,
            out@ == "["@ + joined_codes(so.take(k as int)),
        decreases sorted@.len() - k,
    {
        proof {
            assert(so.take(k as int + 1).drop_last() =~= so.take(k as int));
            assert(so.take(k as int + 1).last() == so[k as int]);
        }
        if k > 0 {
            out.append(", ");
        }
        let d = crate::text::decimal_string(sorted[k]);
        out.append(d.as_str());
        proof {
            if k == 0 {
                assert(joined_codes(so.take(1)).len() >= 0);
                assert(so.take(1).len() == 1);
                assert(so.take(1)[0] == so[0]);
                assert(out@ =~= "["@ + joined_codes(so.take(1)));
            } else {
                assert(out@ =~= "["@ + joined_codes(so.take(k as int + 1)));
            }
        }
        k = k + 1;
    }
    proof {
        assert(so.take(so.len() as int) =~= so);
    }
    out.append("]");
    proof {
        assert(out@ =~= code_list_text(sort_codes(statuses(rv))));
    }
    out
}

/// A short rendering of a schema kind: the shape, and the referenced path
/// where the shape carries one.
pub open spec fn kind_text(k: SchemaKindView) -> Seq<char> {
    match k {
        SchemaKindView::Properties(_) => "Properties"@,
        SchemaKindView::Ref(rp) => "Ref("@ + rp.path + ")"@,
        SchemaKindView::Ty(t) => match t {
            TypeView::Array { .. } => "Ty(Array)"@,
            TypeView::DeleteOptional(_) => "Ty(DeleteOptional)"@,
            TypeView::ListDef { .. } => "Ty(ListDef)"@,
            TypeView::ListOptional(_) => "Ty(ListOptional)"@,
            TypeView::ListRef { items } => match *items {
                SchemaKindView::Ref(rp) => "Ty(ListRef("@ + rp.path + "))"@,
                _ => "Ty(ListRef)"@,
            },
            TypeView::Patch => "Ty(Patch)"@,
            TypeView::PatchOptional(_) => "Ty(PatchOptional)"@,
            TypeView::WatchEvent(rp) => "Ty(WatchEvent("@ + rp.path + "))"@,
            TypeView::WatchOptional(_) => "Ty(WatchOptional)"@,
            TypeView::DeleteResponse => "Ty(DeleteResponse)"@,
            TypeView::ListResponse => "Ty(ListResponse)"@,
            TypeView::PatchResponse => "Ty(PatchResponse)"@,
            TypeView::WatchResponse => "Ty(WatchResponse)"@,
        },
    }
}

/// The rendering of an executable schema kind.
fn schema_kind_text(k: &SchemaKind) -> (r: String)
    ensures
        r@ == kind_text(crate::ir::view_schema_kind(*k)),
{
    match k {
        SchemaKind::Properties(_) => str_copy("Properties"),
        SchemaKind::Ref(rp) => crate::text::str_concat3("Ref(", rp.path.as_str(), ")"),
        SchemaKind::Ty(t) => {
            proof {
                assert(crate::ir::view_schema_kind(*k) == SchemaKindView::Ty(
                    crate::ir::view_type(*t),
                ));
            }
            match t {
                Type::Array { .. } => str_copy("Ty(Array)"),
                Type::DeleteOptional(_) => str_copy("Ty(DeleteOptional)"),
                Type::ListDef { .. } => str_copy("Ty(ListDef)"),
                Type::ListOptional(_) => str_copy("Ty(ListOptional)"),
                Type::ListRef { items } => {
                    let inner: &SchemaKind = &**items;
                    proof {
                        assert(crate::ir::view_type(*t) == (TypeView::ListRef {
                            items: Box::new(crate::ir::view_schema_kind(*inner)),
                        }));
                    }
                    match inner {
                        SchemaKind::Ref(rp) => crate::text::str_concat3(
                            "Ty(ListRef(",
                            rp.path.as_str(),
                            "))",
                        ),
                        _ => str_copy("Ty(ListRef)"),
                    }
                },
                Type::Patch => str_copy("Ty(Patch)"),
                Type::PatchOptional(_) => str_copy("Ty(PatchOptional)"),
                Type::WatchEvent(rp) => crate::text::str_concat3(
                    "Ty(WatchEvent(",
                    rp.path.as_str(),
                    "))",
                ),
                Type::WatchOptional(_) => str_copy("Ty(WatchOptional)"),
                Type::DeleteResponse => str_copy("Ty(DeleteResponse)"),
                Type::ListResponse => str_copy("Ty(ListResponse)"),
                Type::PatchResponse => str_copy("Ty(PatchResponse)"),
                Type::WatchResponse => str_copy("Ty(WatchResponse)"),
            }
        },
    }
}

/// A status-code failure message: the operation id followed by the
/// offending sorted code set.
pub open spec fn status_failure_message(op: OperationView, middle: Seq<char>) -> Seq<char> {
    "operation "@ + op.id + middle + code_list_text(sort_codes(statuses(op.responses)))
}

/// A response-schema failure message: the operation id, the offending
/// status code, and the offending schema shape.
pub open spec fn schema_failure_message(op: OperationView, middle: Seq<char>, j: int) -> Seq<
    char,
> {
    "operation "@ + op.id + middle + crate::text::spec_decimal(op.responses[j].status as int)
        + ": "@ + kind_text(op.responses[j].schema.kind)
}

/// What a failure of the response pass says: some operation of one of the
/// four categories breaks its expected shape, and the message names that
/// operation together with the offending code set, or the offending status
/// code and schema shape, or the missing group-version-kind.
pub open spec fn response_failure_named(ops: Seq<OperationView>, m: Seq<char>) -> bool {
    ||| exists|i: int|
        0 <= i < ops.len() && is_delete(#[trigger] ops[i]) && !delete_status_ok(ops[i].responses)
            && m == status_failure_message(
            ops[i],
            " does not have the expected response status codes of a delete operation: "@,
        )
    ||| exists|i: int|
        0 <= i < ops.len() && is_delete_collection(#[trigger] ops[i]) && !only_ok_status(
            ops[i].responses,
        ) && m == status_failure_message(
            ops[i],
            " does not have the expected response status codes of a delete-collection operation: "@,
        )
    ||| exists|i: int, j: int|
        #![trigger ops[i].responses[j]]
        0 <= i < ops.len() && is_delete(ops[i]) && 0 <= j < ops[i].responses.len()
            && !is_status_ref(ops[i].responses[j].schema.kind) && m == schema_failure_message(
            ops[i],
            " does not have the expected response schema of a delete operation for status code "@,
            j,
        )
    ||| exists|i: int, j: int|
        #![trigger ops[i].responses[j]]
        0 <= i < ops.len() && is_delete_collection(ops[i]) && 0 <= j < ops[i].responses.len()
            && !is_status_ref(ops[i].responses[j].schema.kind) && m == schema_failure_message(
            ops[i],
            " does not have the expected response schema of a delete-collection operation for status code "@,
            j,
        )
    ||| exists|i: int|
        0 <= i < ops.len() && is_list_op(#[trigger] ops[i]) && !only_ok_status(ops[i].responses)
            && m == status_failure_message(
            ops[i],
            " does not have the expected response status codes of a list operation: "@,
        )
    ||| exists|i: int|
        0 <= i < ops.len() && is_list_op(#[trigger] ops[i])
            && ops[i].kubernetes_group_kind_version is None && m == "operation "@ + ops[i].id
            + " looks like a list but doesn't have a group-version-kind"@
    ||| exists|i: int, j: int|
        #![trigger ops[i].responses[j]]
        0 <= i < ops.len() && is_list_op(ops[i]) && ops[i].kubernetes_group_kind_version is Some
            && 0 <= j < ops[i].responses.len() && !is_list_ref_with_suffix(
            ops[i].responses[j].schema.kind,
            dot_text() + ops[i].kubernetes_group_kind_version->0.kind,
        ) && m == schema_failure_message(
            ops[i],
            " does not have the expected response schema of a list operation for status code "@,
            j,
        )
    ||| exists|i: int|
        0 <= i < ops.len() && is_patch_op(#[trigger] ops[i]) && !only_ok_status(ops[i].responses)
            && m == status_failure_message(
            ops[i],
            " does not have the expected response status codes of a patch operation: "@,
        )
    ||| exists|i: int|
        0 <= i < ops.len() && is_patch_op(#[trigger] ops[i])
            && ops[i].kubernetes_group_kind_version is None && m == "operation "@ + ops[i].id
            + " looks like a list but doesn't have a group-version-kind"@
    ||| exists|i: int, j: int|
        #![trigger ops[i].responses[j]]
        0 <= i < ops.len() && is_patch_op(ops[i]) && ops[i].kubernetes_group_kind_version is Some
            && 0 <= j < ops[i].responses.len() && !is_ref_with_suffix(
            ops[i].responses[j].schema.kind,
            dot_text() + ops[i].kubernetes_group_kind_version->0.kind,
        ) && m == schema_failure_message(
            ops[i],
            " does not have the expected response schema of a patch operation for status code "@,
            j,
        )
    ||| exists|i: int|
        0 <= i < ops.len() && is_watch_op(#[trigger] ops[i]) && !only_ok_status(ops[i].responses)
            && m == status_failure_message(
            ops[i],
            " does not have the expected response status codes of a watch operation: "@,
        )
    ||| exists|i: int, j: int|
        #![trigger ops[i].responses[j]]
        0 <= i < ops.len() && is_watch_op(ops[i]) && 0 <= j < ops[i].responses.len()
            && !is_watch_event_ref(ops[i].responses[j].schema.kind) && m
            == schema_failure_message(
            ops[i],
            " does not have the expected response schema of a watch operation for status code "@,
            j,
        )
}

/// Check the responses of every delete and delete-collection operation.
#[verifier::loop_isolation(false)]
fn check_delete_responses(ops: &Vec<Operation>) -> (r: Result<(), FixupError>)
    ensures
        r is Ok <==> forall|i: int|
            0 <= i < crate::ir::view_operations(ops@).len() ==> {
                let op = #[trigger] crate::ir::view_operations(ops@)[i];
                (is_delete(op) || is_delete_collection(op)) ==> delete_responses_ok(op)
            },
        r matches Err(e) ==> response_failure_named(
            crate::ir::view_operations(ops@),
            e.message@,
        ),
{
    let ghost ov = crate::ir::view_operations(ops@);
    let mut i: usize = 0;
    while i < ops.len()
        invariant
            i <= ops@.len(),
            forall|j: int| 0 <= j < i ==> {
                let op = #[trigger] ov[j];
                (is_delete(op) || is_delete_collection(op)) ==> delete_responses_ok(op)
            },
        decreases ops@.len() - i,
    {
        let ghost opv = ov[i as int];
        proof {
            assert(opv == ops@[i as int]@);
        }
        let (is_del, is_dc) = match ops[i].kubernetes_action {
            Some(KubernetesAction::Delete) => (true, false),
            Some(KubernetesAction::DeleteCollection) => (false, true),
            _ => (false, false),
        };
        if is_del || is_dc {
            let rs = &ops[i].responses;
            let status_ok = if is_del {
                (rs.len() == 1 && rs[0].status == 200) || (rs.len() == 2 && ((rs[0].status == 200
                    && rs[1].status == 202) || (rs[0].status == 202 && rs[1].status == 200)))
            } else {
                rs.len() == 1 && rs[0].status == 200
            };
            proof {
                if opv.responses.len() > 0 {
                    assert(opv.responses[0] == ops@[i as int].responses@[0]@);
                }
                if opv.responses.len() > 1 {
                    assert(opv.responses[1] == ops@[i as int].responses@[1]@);
                }
            }
            if !status_ok {
                proof {
                    assert(!delete_responses_ok(opv));
                    assert(opv.responses =~= crate::ir::view_responses(
                        ops@[i as int].responses@,
                    ));
                }
                let msg = if is_del {
                    str_concat3(
                        "operation ",
                        ops[i].id.as_str(),
                        " does not have the expected response status codes of a delete operation: ",
                    )
                } else {
                    str_concat3(
                        "operation ",
                        ops[i].id.as_str(),
                        " does not have the expected response status codes of a delete-collection operation: ",
                    )
                };
                let codes_text = status_codes_text(rs);
                let msg = crate::text::str_concat(msg.as_str(), codes_text.as_str());
                proof {
                    if is_del {
                        assert(!delete_status_ok(opv.responses));
                        assert(msg@ == status_failure_message(
                            opv,
                            " does not have the expected response status codes of a delete operation: "@,
                        ));
                    } else {
                        assert(!only_ok_status(opv.responses));
                        assert(msg@ == status_failure_message(
                            opv,
                            " does not have the expected response status codes of a delete-collection operation: "@,
                        ));
                    }
                    assert(response_failure_named(ov, msg@));
                }
                return Err(FixupError { message: msg });
            }
            let mut j: usize = 0;
            while j < rs.len()
                invariant
                    j <= rs@.len(),
                    forall|w: int| 0 <= w < j ==> is_status_ref(
                        #[trigger] opv.responses[w].schema.kind,
                    ),
                decreases rs@.len() - j,
            {
                let ok = match &rs[j].schema.kind {
                    SchemaKind::Ref(rp) => str_eq(
                        rp.path.as_str(),
                        "io.k8s.apimachinery.pkg.apis.meta.v1.Status",
                    ),
                    _ => false,
                };
                proof {
                    assert(opv.responses[j as int] == ops@[i as int].responses@[j as int]@);
                }
                if !ok {
                    proof {
                        assert(!is_status_ref(opv.responses[j as int].schema.kind));
                        assert(!delete_responses_ok(opv));
                        assert(opv.responses[j as int].schema.kind == crate::ir::view_schema_kind(
                            ops@[i as int].responses@[j as int].schema.kind,
                        ));
                    }
                    let msg = if is_del {
                        str_concat3(
                            "operation ",
                            ops[i].id.as_str(),
                            " does not have the expected response schema of a delete operation for status code ",
                        )
                    } else {
                        str_concat3(
                            "operation ",
                            ops[i].id.as_str(),
                            " does not have the expected response schema of a delete-collection operation for status code ",
                        )
                    };
                    let code_text = crate::text::decimal_string(rs[j].status);
                    let msg = crate::text::str_concat(msg.as_str(), code_text.as_str());
                    let kind_part = schema_kind_text(&rs[j].schema.kind);
                    let msg = str_concat3(msg.as_str(), ": ", kind_part.as_str());
                    proof {
                        if is_del {
                            assert(msg@ == schema_failure_message(
                                opv,
                                " does not have the expected response schema of a delete operation for status code "@,
                                j as int,
                            ));
                        } else {
                            assert(msg@ == schema_failure_message(
                                opv,
                                " does not have the expected response schema of a delete-collection operation for status code "@,
                                j as int,
                            ));
                        }
                        assert(response_failure_named(ov, msg@));
                    }
                    return Err(FixupError { message: msg });
                }
                j = j + 1;
            }
            proof {
                assert(delete_status_ok(opv.responses) || only_ok_status(opv.responses));
                assert(delete_responses_ok(opv));
            }
        }
        i = i + 1;
    }
    Ok(())
}

/// Check the responses of every list operation.
#[verifier::loop_isolation(false)]
fn check_list_responses(ops: &Vec<Operation>) -> (r: Result<(), FixupError>)
    ensures
        r is Ok <==> forall|i: int|
            0 <= i < crate::ir::view_operations(ops@).len() ==> {
                let op = #[trigger] crate::ir::view_operations(ops@)[i];
                is_list_op(op) ==> list_responses_ok(op)
            },
        r matches Err(e) ==> response_failure_named(
            crate::ir::view_operations(ops@),
            e.message@,
        ),
{
    let ghost ov = crate::ir::view_operations(ops@);
    let mut i: usize = 0;
    while i < ops.len()
        invariant
            i <= ops@.len(),
            forall|j: int| 0 <= j < i ==> {
                let op = #[trigger] ov[j];
                is_list_op(op) ==> list_responses_ok(op)
            },
        decreases ops@.len() - i,
    {
        let ghost opv = ov[i as int];
        proof {
            assert(opv == ops@[i as int]@);
        }
        let is_list = match ops[i].kubernetes_action {
            Some(KubernetesAction::List) => true,
            _ => false,
        };
        if is_list {
            let rs = &ops[i].responses;
            if !(rs.len() == 1 && rs[0].status == 200) {
                proof {
                    if opv.responses.len() > 0 {
                        assert(opv.responses[0] == ops@[i as int].responses@[0]@);
                    }
                    assert(!list_responses_ok(opv));
                }
                let msg = str_concat3(
                    "operation ",
                    ops[i].id.as_str(),
                    " does not have the expected response status codes of a list operation: ",
                );
                let codes_text = status_codes_text(rs);
                let msg = crate::text::str_concat(msg.as_str(), codes_text.as_str());
                proof {
                    assert(opv.responses =~= crate::ir::view_responses(
                        ops@[i as int].responses@,
                    ));
                    assert(!only_ok_status(opv.responses));
                    assert(msg@ == status_failure_message(
                        opv,
                        " does not have the expected response status codes of a list operation: "@,
                    ));
                    assert(response_failure_named(ov, msg@));
                }
                return Err(FixupError { message: msg });
            }
            let suffix = match &ops[i].kubernetes_group_kind_version {
                Some(gvk) => crate::text::str_concat(".", gvk.kind.as_str()),
                None => {
                    proof {
                        assert(!list_responses_ok(opv));
                    }
                    let msg = str_concat3(
                        "operation ",
                        ops[i].id.as_str(),
                        " looks like a list but doesn't have a group-version-kind",
                    );
                    proof {
                        assert(msg@ == "operation "@ + opv.id
                            + " looks like a list but doesn't have a group-version-kind"@);
                        assert(response_failure_named(ov, msg@));
                    }
                    return Err(FixupError { message: msg });
                },
            };
            let ghost sfx = dot_text() + opv.kubernetes_group_kind_version->0.kind;
            proof {
                assert(suffix@ == sfx);
            }
            let mut j: usize = 0;
            while j < rs.len()
                invariant
                    j <= rs@.len(),
                    forall|w: int| 0 <= w < j ==> is_list_ref_with_suffix(
                        #[trigger] opv.responses[w].schema.kind,
                        sfx,
                    ),
                decreases rs@.len() - j,
            {
                let ok = kind_is_list_ref_with_suffix(&rs[j].schema.kind, suffix.as_str());
                proof {
                    assert(opv.responses[j as int] == ops@[i as int].responses@[j as int]@);
                    assert(opv.responses[j as int].schema.kind == crate::ir::view_schema_kind(
                        ops@[i as int].responses@[j as int].schema.kind,
                    ));
                }
                if !ok {
                    proof {
                        assert(!is_list_ref_with_suffix(opv.responses[j as int].schema.kind, sfx));
                        assert(!list_responses_ok(opv));
                    }
                    let msg = str_concat3(
                        "operation ",
                        ops[i].id.as_str(),
                        " does not have the expected response schema of a list operation for status code ",
                    );
                    let code_text = crate::text::decimal_string(rs[j].status);
                    let msg = crate::text::str_concat(msg.as_str(), code_text.as_str());
                    let kind_part = schema_kind_text(&rs[j].schema.kind);
                    let msg = str_concat3(msg.as_str(), ": ", kind_part.as_str());
                    proof {
                        assert(opv.responses[j as int].schema.kind == crate::ir::view_schema_kind(
                            ops@[i as int].responses@[j as int].schema.kind,
                        ));
                        assert(msg@ == schema_failure_message(
                            opv,
                            " does not have the expected response schema of a list operation for status code "@,
                            j as int,
                        ));
                        assert(response_failure_named(ov, msg@));
                    }
                    return Err(FixupError { message: msg });
                }
                j = j + 1;
            }
            proof {
                assert(list_responses_ok(opv));
            }
        }
        i = i + 1;
    }
    Ok(())
}

/// Check the responses of every patch operation.
#[verifier::loop_isolation(false)]
fn check_patch_responses(ops: &Vec<Operation>) -> (r: Result<(), FixupError>)
    ensures
        r is Ok <==> forall|i: int|
            0 <= i < crate::ir::view_operations(ops@).len() ==> {
                let op = #[trigger] crate::ir::view_operations(ops@)[i];
                is_patch_op(op) ==> patch_responses_ok(op)
            },
        r matches Err(e) ==> response_failure_named(
            crate::ir::view_operations(ops@),
            e.message@,
        ),
{
    let ghost ov = crate::ir::view_operations(ops@);
    let mut i: usize = 0;
    while i < ops.len()
        invariant
            i <= ops@.len(),
            forall|j: int| 0 <= j < i ==> {
                let op = #[trigger] ov[j];
                is_patch_op(op) ==> patch_responses_ok(op)
            },
        decreases ops@.len() - i,
    {
        let ghost opv = ov[i as int];
        proof {
            assert(opv == ops@[i as int]@);
        }
        let is_p = match ops[i].kubernetes_action {
            Some(KubernetesAction::Patch) => true,
            _ => false,
        };
        if is_p {
            let rs = &ops[i].responses;
            if !(rs.len() == 1 && rs[0].status == 200) {
                proof {
                    if opv.responses.len() > 0 {
                        assert(opv.responses[0] == ops@[i as int].responses@[0]@);
                    }
                    assert(!patch_responses_ok(opv));
                }
                let msg = str_concat3(
                    "operation ",
                    ops[i].id.as_str(),
                    " does not have the expected response status codes of a patch operation: ",
                );
                let codes_text = status_codes_text(rs);
                let msg = crate::text::str_concat(msg.as_str(), codes_text.as_str());
                proof {
                    assert(opv.responses =~= crate::ir::view_responses(
                        ops@[i as int].responses@,
                    ));
                    assert(!only_ok_status(opv.responses));
                    assert(msg@ == status_failure_message(
                        opv,
                        " does not have the expected response status codes of a patch operation: "@,
                    ));
                    assert(response_failure_named(ov, msg@));
                }
                return Err(FixupError { message: msg });
            }
            let suffix = match &ops[i].kubernetes_group_kind_version {
                Some(gvk) => crate::text::str_concat(".", gvk.kind.as_str()),
                None => {
                    proof {
                        assert(!patch_responses_ok(opv));
                    }
                    let msg = str_concat3(
                        "operation ",
                        ops[i].id.as_str(),
                        " looks like a list but doesn't have a group-version-kind",
                    );
                    proof {
                        assert(msg@ == "operation "@ + opv.id
                            + " looks like a list but doesn't have a group-version-kind"@);
                        assert(response_failure_named(ov, msg@));
                    }
                    return Err(FixupError { message: msg });
                },
            };
            let ghost sfx = dot_text() + opv.kubernetes_group_kind_version->0.kind;
            proof {
                assert(suffix@ == sfx);
            }
            let mut j: usize = 0;
            while j < rs.len()
                invariant
                    j <= rs@.len(),
                    forall|w: int| 0 <= w < j ==> is_ref_with_suffix(
                        #[trigger] opv.responses[w].schema.kind,
                        sfx,
                    ),
                decreases rs@.len() - j,
            {
                let ok = match &rs[j].schema.kind {
                    SchemaKind::Ref(rp) => str_ends_with(rp.path.as_str(), suffix.as_str()),
                    _ => false,
                };
                proof {
                    assert(opv.responses[j as int] == ops@[i as int].responses@[j as int]@);
                }
                if !ok {
                    proof {
                        assert(!is_ref_with_suffix(opv.responses[j as int].schema.kind, sfx));
                        assert(!patch_responses_ok(opv));
                    }
                    let msg = str_concat3(
                        "operation ",
                        ops[i].id.as_str(),
                        " does not have the expected response schema of a patch operation for status code ",
                    );
                    let code_text = crate::text::decimal_string(rs[j].status);
                    let msg = crate::text::str_concat(msg.as_str(), code_text.as_str());
                    let kind_part = schema_kind_text(&rs[j].schema.kind);
                    let msg = str_concat3(msg.as_str(), ": ", kind_part.as_str());
                    proof {
                        assert(opv.responses[j as int].schema.kind == crate::ir::view_schema_kind(
                            ops@[i as int].responses@[j as int].schema.kind,
                        ));
                        assert(msg@ == schema_failure_message(
                            opv,
                            " does not have the expected response schema of a patch operation for status code "@,
                            j as int,
                        ));
                        assert(response_failure_named(ov, msg@));
                    }
                    return Err(FixupError { message: msg });
                }
                j = j + 1;
            }
            proof {
                assert(patch_responses_ok(opv));
            }
        }
        i = i + 1;
    }
    Ok(())
}

/// Check the responses of every watch operation.
#[verifier::loop_isolation(false)]
fn check_watch_responses(ops: &Vec<Operation>) -> (r: Result<(), FixupError>)
    ensures
        r is Ok <==> forall|i: int|
            0 <= i < crate::ir::view_operations(ops@).len() ==> {
                let op = #[trigger] crate::ir::view_operations(ops@)[i];
                is_watch_op(op) ==> watch_responses_ok(op)
            },
        r matches Err(e) ==> response_failure_named(
            crate::ir::view_operations(ops@),
            e.message@,
        ),
{
    let ghost ov = crate::ir::view_operations(ops@);
    let mut i: usize = 0;
    while i < ops.len()
        invariant
            i <= ops@.len(),
            forall|j: int| 0 <= j < i ==> {
                let op = #[trigger] ov[j];
                is_watch_op(op) ==> watch_responses_ok(op)
            },
        decreases ops@.len() - i,
    {
        let ghost opv = ov[i as int];
        proof {
            assert(opv == ops@[i as int]@);
        }
        let is_w = match ops[i].kubernetes_action {
            Some(KubernetesAction::Watch) => true,
            _ => false,
        };
        if is_w {
            let rs = &ops[i].responses;
            if !(rs.len() == 1 && rs[0].status == 200) {
                proof {
                    if opv.responses.len() > 0 {
                        assert(opv.responses[0] == ops@[i as int].responses@[0]@);
                    }
                    assert(!watch_responses_ok(opv));
                }
                let msg = str_concat3(
                    "operation ",
                    ops[i].id.as_str(),
                    " does not have the expected response status codes of a watch operation: ",
                );
                let codes_text = status_codes_text(rs);
                let msg = crate::text::str_concat(msg.as_str(), codes_text.as_str());
                proof {
                    assert(opv.responses =~= crate::ir::view_responses(
                        ops@[i as int].responses@,
                    ));
                    assert(!only_ok_status(opv.responses));
                    assert(msg@ == status_failure_message(
                        opv,
                        " does not have the expected response status codes of a watch operation: "@,
                    ));
                    assert(response_failure_named(ov, msg@));
                }
                return Err(FixupError { message: msg });
            }
            let mut j: usize = 0;
            while j < rs.len()
                invariant
                    j <= rs@.len(),
                    forall|w: int| 0 <= w < j ==> is_watch_event_ref(
                        #[trigger] opv.responses[w].schema.kind,
                    ),
                decreases rs@.len() - j,
            {
                let ok = match &rs[j].schema.kind {
                    SchemaKind::Ref(rp) => str_eq(
                        rp.path.as_str(),
                        "io.k8s.apimachinery.pkg.apis.meta.v1.WatchEvent",
                    ),
                    _ => false,
                };
                proof {
                    assert(opv.responses[j as int] == ops@[i as int].responses@[j as int]@);
                }
                if !ok {
                    proof {
                        assert(!is_watch_event_ref(opv.responses[j as int].schema.kind));
                        assert(!watch_responses_ok(opv));
                    }
                    let msg = str_concat3(
                        "operation ",
                        ops[i].id.as_str(),
                        " does not have the expected response schema of a watch operation for status code ",
                    );
                    let code_text = crate::text::decimal_string(rs[j].status);
                    let msg = crate::text::str_concat(msg.as_str(), code_text.as_str());
                    let kind_part = schema_kind_text(&rs[j].schema.kind);
                    let msg = str_concat3(msg.as_str(), ": ", kind_part.as_str());
                    proof {
                        assert(opv.responses[j as int].schema.kind == crate::ir::view_schema_kind(
                            ops@[i as int].responses@[j as int].schema.kind,
                        ));
                        assert(msg@ == schema_failure_message(
                            opv,
                            " does not have the expected response schema of a watch operation for status code "@,
                            j as int,
                        ));
                        assert(response_failure_named(ov, msg@));
                    }
                    return Err(FixupError { message: msg });
                }
                j = j + 1;
            }
            proof {
                assert(watch_responses_ok(opv));
            }
        }
        i = i + 1;
    }
    Ok(())
}

/// One marker definition as an executable schema.
fn make_marker(description: &str, ty: Type) -> (r: crate::ir::Schema)
    ensures
        r@ == marker_entry(description@, ty@),
{
    crate::ir::Schema {
        description: Some(str_copy(description)),
        kind: SchemaKind::Ty(ty),
        kubernetes_group_kind_versions: None,
        has_corresponding_list_type: false,
    }
}

/// Validate the response shapes of all delete, delete-collection, list,
/// patch and watch operations, then install the four response marker
/// definitions.
pub fn response_types(s: &mut ApiSpec) -> (r: Result<(), FixupError>)
    ensures
        r is Ok <==> can_response_types(old(s)@),
        r is Ok ==> final(s)@ == apply_response_types(old(s)@),
        r is Err ==> final(s)@ == old(s)@,
        r matches Err(e) ==> response_failure_named(old(s)@.operations, e.message@),
{
    match check_delete_responses(&s.operations) {
        Ok(_) => {},
        Err(e) => {
            proof {
                assert(!can_response_types(old(s)@));
            }
            return Err(e);
        },
    }
    match check_list_responses(&s.operations) {
        Ok(_) => {},
        Err(e) => {
            proof {
                assert(!can_response_types(old(s)@));
            }
            return Err(e);
        },
    }
    match check_patch_responses(&s.operations) {
        Ok(_) => {},
        Err(e) => {
            proof {
                assert(!can_response_types(old(s)@));
            }
            return Err(e);
        },
    }
    match check_watch_responses(&s.operations) {
        Ok(_) => {},
        Err(e) => {
            proof {
                assert(!can_response_types(old(s)@));
            }
            return Err(e);
        },
    }
    insert_definition(
        &mut s.definitions,
        str_copy("io.k8s.DeleteResponse"),
        make_marker(
            "The common response type for all delete API operations and delete-collection API operations.",
            Type::DeleteResponse,
        ),
    );
    insert_definition(
        &mut s.definitions,
        str_copy("io.k8s.ListResponse"),
        make_marker("The common response type for all list API operations.", Type::ListResponse),
    );
    insert_definition(
        &mut s.definitions,
        str_copy("io.k8s.PatchResponse"),
        make_marker("The common response type for all patch API operations.", Type::PatchResponse),
    );
    insert_definition(
        &mut s.definitions,
        str_copy("io.k8s.WatchResponse"),
        make_marker("The common response type for all watch API operations.", Type::WatchResponse),
    );
    proof {
        assert(s@ =~= apply_response_types(old(s)@));
    }
    Ok(())
}

} // verus!
