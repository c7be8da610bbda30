//! The mathematical model of the intermediate representation.
//!
//! Every executable IR type in [`crate::ir`] has a view into the ghost types
//! of this module; the contracts of the fixup passes are stated over these.

use vstd::prelude::*;

verus! {

/// Whether a reference path is resolved against the crate root or the
/// enclosing scope.
#[derive(Clone, Copy, PartialEq, Eq, Structural, Debug)]
pub enum RelativeTo {
    Crate,
    Scope,
}

/// Where an operation parameter is carried.
#[derive(Clone, Copy, PartialEq, Eq, Structural, Debug)]
pub enum ParameterLocation {
    Path,
    Query,
    Body,
}

/// The semantic role of an operation, driving which fixup touches it.
#[derive(Clone, Copy, PartialEq, Eq, Structural, Debug)]
pub enum KubernetesAction {
    Connect,
    Delete,
    DeleteCollection,
    Get,
    List,
    Patch,
    Post,
    Put,
    Watch,
    WatchList,
}

/// Model of a reference to another definition.
#[verifier::ext_equal]
pub struct RefPathView {
    pub path: Seq<char>,
    pub relative_to: RelativeTo,
    pub can_be_default: Option<bool>,
}

/// Model of a (group, version, kind) triple.
#[verifier::ext_equal]
pub struct GroupVersionKindView {
    pub group: Seq<char>,
    pub version: Seq<char>,
    pub kind: Seq<char>,
}

/// Model of one named object property together with its required flag.
#[verifier::ext_equal]
pub struct PropertyView {
    pub name: Seq<char>,
    pub schema: SchemaView,
    pub required: bool,
}

/// Model of one entry of a synthesized optional-parameter aggregate.
#[verifier::ext_equal]
pub struct OptionalPropertyView {
    pub name: Seq<char>,
    pub schema: SchemaView,
}

/// Model of the closed set of schema shapes.
#[verifier::ext_equal]
pub enum SchemaKindView {
    Properties(Seq<PropertyView>),
    Ref(RefPathView),
    Ty(TypeView),
}

/// Model of the synthesized and special type shapes.
#[verifier::ext_equal]
#[allow(inconsistent_fields)]
pub enum TypeView {
    Array { items: Box<SchemaView> },
    DeleteOptional(Seq<OptionalPropertyView>),
    ListDef { metadata: Box<SchemaKindView> },
    ListOptional(Seq<OptionalPropertyView>),
    ListRef { items: Box<SchemaKindView> },
    Patch,
    PatchOptional(Seq<OptionalPropertyView>),
    WatchEvent(RefPathView),
    WatchOptional(Seq<OptionalPropertyView>),
    DeleteResponse,
    ListResponse,
    PatchResponse,
    WatchResponse,
}

/// Model of a schema: a description, a shape, and resource metadata.
#[verifier::ext_equal]
pub struct SchemaView {
    pub description: Option<Seq<char>>,
    pub kind: SchemaKindView,
    pub kubernetes_group_kind_versions: Option<Seq<GroupVersionKindView>>,
    pub has_corresponding_list_type: bool,
}

/// Model of one named definition.
#[verifier::ext_equal]
pub struct DefinitionView {
    pub path: Seq<char>,
    pub schema: SchemaView,
}

/// Model of one operation parameter.
#[verifier::ext_equal]
pub struct ParameterView {
    pub location: ParameterLocation,
    pub name: Seq<char>,
    pub required: bool,
    pub schema: SchemaView,
}

/// Model of one response: an HTTP status code and the body schema.
#[verifier::ext_equal]
pub struct ResponseView {
    pub status: u16,
    pub schema: SchemaView,
}

/// Model of one API operation.
#[verifier::ext_equal]
pub struct OperationView {
    pub id: Seq<char>,
    pub description: Option<Seq<char>>,
    pub kubernetes_action: Option<KubernetesAction>,
    pub kubernetes_group_kind_version: Option<GroupVersionKindView>,
    pub parameters: Seq<ParameterView>,
    pub responses: Seq<ResponseView>,
}

/// Model of the whole API description.
#[verifier::ext_equal]
pub struct ApiSpecView {
    pub definitions: Seq<DefinitionView>,
    pub operations: Seq<OperationView>,
}

/// Index of the first definition named `path`, or `defs.len()` if absent.
pub open spec fn def_index(defs: Seq<DefinitionView>, path: Seq<char>) -> int
    decreases defs.len(),
{
    if defs.len() == 0 {
        0
    } else if defs[0].path == path {
        0
    } else {
        1 + def_index(defs.drop_first(), path)
    }
}

/// Whether some definition is named `path`.
pub open spec fn def_present(defs: Seq<DefinitionView>, path: Seq<char>) -> bool {
    def_index(defs, path) < defs.len()
}

/// The schema of the first definition named `path`.
pub open spec fn def_schema(defs: Seq<DefinitionView>, path: Seq<char>) -> SchemaView {
    defs[def_index(defs, path)].schema
}

/// Insert-or-replace: the first definition named `path` is replaced in place;
/// if none exists the new definition is appended.
pub open spec fn def_insert(
    defs: Seq<DefinitionView>,
    path: Seq<char>,
    schema: SchemaView,
) -> Seq<DefinitionView> {
    if def_present(defs, path) {
        defs.update(def_index(defs, path), DefinitionView { path, schema })
    } else {
        defs.push(DefinitionView { path, schema })
    }
}

/// The characterization of `def_index`: it is the first index whose
/// definition is named `path`, and it is `defs.len()` when there is none.
pub proof fn lemma_def_index(defs: Seq<DefinitionView>, path: Seq<char>)
    ensures
        0 <= def_index(defs, path) <= defs.len(),
        def_index(defs, path) < defs.len() ==> defs[def_index(defs, path)].path == path,
        forall|j: int| 0 <= j < def_index(defs, path) ==> defs[j].path != path,
    decreases defs.len(),
{
    if defs.len() != 0 && defs[0].path != path {
        lemma_def_index(defs.drop_first(), path);
        assert forall|j: int| 0 <= j < def_index(defs, path) implies defs[j].path != path by {
            if j > 0 {
                assert(defs[j] == defs.drop_first()[j - 1]);
            }
        }
    }
}

/// Index of the first operation whose id is `id`, or `ops.len()` if absent.
pub open spec fn op_index(ops: Seq<OperationView>, id: Seq<char>) -> int
    decreases ops.len(),
{
    if ops.len() == 0 {
        0
    } else if ops[0].id == id {
        0
    } else {
        1 + op_index(ops.drop_first(), id)
    }
}

/// Whether some operation has id `id`.
pub open spec fn op_present(ops: Seq<OperationView>, id: Seq<char>) -> bool {
    op_index(ops, id) < ops.len()
}

/// The characterization of `op_index`.
pub proof fn lemma_op_index(ops: Seq<OperationView>, id: Seq<char>)
    ensures
        0 <= op_index(ops, id) <= ops.len(),
        op_index(ops, id) < ops.len() ==> ops[op_index(ops, id)].id == id,
        forall|j: int| 0 <= j < op_index(ops, id) ==> ops[j].id != id,
    decreases ops.len(),
{
    if ops.len() != 0 && ops[0].id != id {
        lemma_op_index(ops.drop_first(), id);
        assert forall|j: int| 0 <= j < op_index(ops, id) implies ops[j].id != id by {
            if j > 0 {
                assert(ops[j] == ops.drop_first()[j - 1]);
            }
        }
    }
}

/// Index of the first parameter named `name` that is optional, or
/// `params.len()` if there is none.
pub open spec fn optional_param_index(params: Seq<ParameterView>, name: Seq<char>) -> int
    decreases params.len(),
{
    if params.len() == 0 {
        0
    } else if params[0].name == name && !params[0].required {
        0
    } else {
        1 + optional_param_index(params.drop_first(), name)
    }
}

/// Whether some optional parameter is named `name`.
pub open spec fn has_optional_param(params: Seq<ParameterView>, name: Seq<char>) -> bool {
    optional_param_index(params, name) < params.len()
}

/// The characterization of `optional_param_index`.
pub proof fn lemma_optional_param_index(params: Seq<ParameterView>, name: Seq<char>)
    ensures
        0 <= optional_param_index(params, name) <= params.len(),
        optional_param_index(params, name) < params.len() ==> {
            &&& params[optional_param_index(params, name)].name == name
            &&& !params[optional_param_index(params, name)].required
        },
        forall|j: int|
            0 <= j < optional_param_index(params, name) ==> !(params[j].name == name
                && !params[j].required),
    decreases params.len(),
{
    if params.len() != 0 && !(params[0].name == name && !params[0].required) {
        lemma_optional_param_index(params.drop_first(), name);
        assert forall|j: int|
            0 <= j < optional_param_index(params, name) implies !(params[j].name == name
            && !params[j].required) by {
            if j > 0 {
                assert(params[j] == params.drop_first()[j - 1]);
            }
        }
    }
}

/// Index of the first property named `name`, or `props.len()` if absent.
pub open spec fn prop_index(props: Seq<PropertyView>, name: Seq<char>) -> int
    decreases props.len(),
{
    if props.len() == 0 {
        0
    } else if props[0].name == name {
        0
    } else {
        1 + prop_index(props.drop_first(), name)
    }
}

/// Whether some property is named `name`.
pub open spec fn prop_present(props: Seq<PropertyView>, name: Seq<char>) -> bool {
    prop_index(props, name) < props.len()
}

/// The characterization of `prop_index`.
pub proof fn lemma_prop_index(props: Seq<PropertyView>, name: Seq<char>)
    ensures
        0 <= prop_index(props, name) <= props.len(),
        prop_index(props, name) < props.len() ==> props[prop_index(props, name)].name == name,
        forall|j: int| 0 <= j < prop_index(props, name) ==> props[j].name != name,
    decreases props.len(),
{
    if props.len() != 0 && props[0].name != name {
        lemma_prop_index(props.drop_first(), name);
        assert forall|j: int| 0 <= j < prop_index(props, name) implies props[j].name != name by {
            if j > 0 {
                assert(props[j] == props.drop_first()[j - 1]);
            }
        }
    }
}

/// Index of the first body parameter, or `params.len()` if there is none.
pub open spec fn body_param_index(params: Seq<ParameterView>) -> int
    decreases params.len(),
{
    if params.len() == 0 {
        0
    } else if params[0].location == ParameterLocation::Body {
        0
    } else {
        1 + body_param_index(params.drop_first())
    }
}

/// Whether the operation has a body parameter.
pub open spec fn has_body_param(params: Seq<ParameterView>) -> bool {
    body_param_index(params) < params.len()
}

/// The characterization of `body_param_index`.
pub proof fn lemma_body_param_index(params: Seq<ParameterView>)
    ensures
        0 <= body_param_index(params) <= params.len(),
        body_param_index(params) < params.len() ==> params[body_param_index(
            params,
        )].location == ParameterLocation::Body,
        forall|j: int|
            0 <= j < body_param_index(params) ==> params[j].location != ParameterLocation::Body,
    decreases params.len(),
{
    if params.len() != 0 && params[0].location != ParameterLocation::Body {
        lemma_body_param_index(params.drop_first());
        assert forall|j: int|
            0 <= j < body_param_index(params) implies params[j].location
            != ParameterLocation::Body by {
            if j > 0 {
                assert(params[j] == params.drop_first()[j - 1]);
            }
        }
    }
}

/// The required parameters of `params`, in order.
pub open spec fn required_params(params: Seq<ParameterView>) -> Seq<ParameterView>
    decreases params.len(),
{
    if params.len() == 0 {
        Seq::empty()
    } else {
        let rest = required_params(params.drop_last());
        if params.last().required {
            rest.push(params.last())
        } else {
            rest
        }
    }
}

/// The parameters kept only at their `Path` location, in order.
pub open spec fn path_params(params: Seq<ParameterView>) -> Seq<ParameterView>
    decreases params.len(),
{
    if params.len() == 0 {
        Seq::empty()
    } else {
        let rest = path_params(params.drop_last());
        if params.last().location == ParameterLocation::Path {
            rest.push(params.last())
        } else {
            rest
        }
    }
}

/// The names of the optional parameters of `params`, in order of first
/// appearance, without duplicates.
pub open spec fn optional_param_names(params: Seq<ParameterView>) -> Seq<Seq<char>>
    decreases params.len(),
{
    if params.len() == 0 {
        Seq::empty()
    } else {
        let rest = optional_param_names(params.drop_last());
        if !params.last().required && !rest.contains(params.last().name) {
            rest.push(params.last().name)
        } else {
            rest
        }
    }
}

/// `optional_param_names` over one more element of the underlying sequence.
pub proof fn lemma_optional_param_names_take_step(params: Seq<ParameterView>, j: int)
    requires
        0 <= j < params.len(),
    ensures
        optional_param_names(params.take(j + 1)) == {
            let rest = optional_param_names(params.take(j));
            if !params[j].required && !rest.contains(params[j].name) {
                rest.push(params[j].name)
            } else {
                rest
            }
        },
{
    assert(params.take(j + 1).drop_last() =~= params.take(j));
    assert(params.take(j + 1).last() == params[j]);
}

/// `optional_param_names` lists exactly the names of the optional
/// parameters, each once.
pub proof fn lemma_optional_param_names(params: Seq<ParameterView>)
    ensures
        forall|n: Seq<char>| #[trigger]
            optional_param_names(params).contains(n) <==> exists|j: int|
                0 <= j < params.len() && #[trigger] params[j].name == n && !params[j].required,
        optional_param_names(params).no_duplicates(),
    decreases params.len(),
{
    if params.len() != 0 {
        lemma_optional_param_names(params.drop_last());
        let rest = optional_param_names(params.drop_last());
        let whole = optional_param_names(params);
        let last = params.last();
        let pushed = !last.required && !rest.contains(last.name);
        assert forall|i: int| 0 <= i < rest.len() implies whole.contains(rest[i]) by {
            assert(whole[i] == rest[i]);
        }
        assert forall|n: Seq<char>| #[trigger] whole.contains(n) implies exists|j: int|
            0 <= j < params.len() && #[trigger] params[j].name == n && !params[j].required by {
            let i = choose|i: int| 0 <= i < whole.len() && whole[i] == n;
            if i < rest.len() {
                assert(rest[i] == n);
                assert(rest.contains(n));
                let j = choose|j: int|
                    0 <= j < params.drop_last().len() && #[trigger] params.drop_last()[j].name == n
                        && !params.drop_last()[j].required;
                assert(params[j].name == n && !params[j].required);
            } else {
                assert(pushed && n == last.name);
                assert(params[params.len() - 1].name == n && !params[params.len() - 1].required);
            }
        }
        assert forall|n: Seq<char>|
            (exists|j: int|
                0 <= j < params.len() && #[trigger] params[j].name == n
                    && !params[j].required) implies #[trigger] whole.contains(n) by {
            let j = choose|j: int|
                0 <= j < params.len() && #[trigger] params[j].name == n && !params[j].required;
            if j < params.len() - 1 {
                assert(params.drop_last()[j].name == n && !params.drop_last()[j].required);
                assert(rest.contains(n));
                let i = choose|i: int| 0 <= i < rest.len() && rest[i] == n;
                assert(whole[i] == n);
            } else {
                if rest.contains(n) {
                    let i = choose|i: int| 0 <= i < rest.len() && rest[i] == n;
                    assert(whole[i] == n);
                } else {
                    assert(pushed);
                    assert(whole[whole.len() - 1] == n);
                }
            }
        }
        assert(whole.no_duplicates()) by {
            if pushed {
                assert forall|i: int, j: int|
                    0 <= i < whole.len() && 0 <= j < whole.len() && i != j implies whole[i]
                    != whole[j] by {
                    if i < rest.len() && j < rest.len() {
                        assert(whole[i] == rest[i] && whole[j] == rest[j]);
                    } else if i < rest.len() {
                        assert(whole[i] == rest[i]);
                        assert(rest.contains(rest[i]));
                        assert(whole[j] == last.name);
                    } else if j < rest.len() {
                        assert(whole[j] == rest[j]);
                        assert(rest.contains(rest[j]));
                        assert(whole[i] == last.name);
                    }
                }
            }
        }
    }
}

} // verus!
