//! The pass that recognizes "list wrapper" definitions, replaces them with
//! one generic list definition, and rewrites every reference to a wrapper
//! into a list-reference to its item type.

use vstd::prelude::*;

use crate::error::FixupError;
use crate::ir::{ApiSpec, Definition, Property, RefPath, Response, Schema, SchemaKind, Type};
use crate::lookup::{find_definition, find_property, insert_definition, names_contain};
use crate::model::{ApiSpecView, DefinitionView, OperationView, PropertyView, RefPathView,
    ResponseView, SchemaKindView, SchemaView, TypeView, def_index, def_insert, def_present,
    def_schema, lemma_def_index, lemma_prop_index, prop_index, prop_present};
use crate::names::{items_name, list_def_description, list_def_path, list_meta_suffix,
    list_suffix, metadata_name};
use crate::text::{spec_ends_with, str_concat, str_concat3, str_ends_with, str_eq};

verus! {

/// Whether the definition looks like a list wrapper: its path ends with
/// "List", it is `Properties`-shaped, it has a required `items` property and
/// an optional `metadata` property referencing a ".ListMeta" definition.
pub open spec fn is_list_candidate(d: DefinitionView) -> bool {
    &&& spec_ends_with(d.path, list_suffix())
    &&& d.schema.kind is Properties
    &&& {
        let props = d.schema.kind->Properties_0;
        &&& prop_present(props, items_name())
        &&& props[prop_index(props, items_name())].required
        &&& prop_present(props, metadata_name())
        &&& !props[prop_index(props, metadata_name())].required
        &&& match props[prop_index(props, metadata_name())].schema.kind {
            SchemaKindView::Ref(rp) => spec_ends_with(rp.path, list_meta_suffix()),
            _ => false,
        }
    }
}

/// Whether a schema is an array of references.
pub open spec fn schema_items_shape_ok(sch: SchemaView) -> bool {
    match sch.kind {
        SchemaKindView::Ty(TypeView::Array { items }) => (*items).kind is Ref,
        _ => false,
    }
}

/// The reference carried by an array-of-references schema.
pub open spec fn schema_items_ref(sch: SchemaView) -> RefPathView {
    match sch.kind {
        SchemaKindView::Ty(TypeView::Array { items }) => match (*items).kind {
            SchemaKindView::Ref(rp) => rp,
            _ => vstd::pervasive::arbitrary(),
        },
        _ => vstd::pervasive::arbitrary(),
    }
}

/// Whether the candidate's `items` property is an array of references.
pub open spec fn items_shape_ok(props: Seq<PropertyView>) -> bool {
    schema_items_shape_ok(props[prop_index(props, items_name())].schema)
}

/// The reference carried by the candidate's `items` array.
pub open spec fn items_ref_of(props: Seq<PropertyView>) -> RefPathView {
    schema_items_ref(props[prop_index(props, items_name())].schema)
}

/// The kind of the candidate's `metadata` property schema.
pub open spec fn metadata_kind_of(d: DefinitionView) -> SchemaKindView {
    let props = d.schema.kind->Properties_0;
    props[prop_index(props, metadata_name())].schema.kind
}

/// Whether the candidate's group-kind-version data lines up with its item's:
/// both carry exactly one triple, with equal group and version, and the
/// candidate's kind is the item's kind followed by "List".
pub open spec fn candidate_ok(defs: Seq<DefinitionView>, d: DefinitionView) -> bool {
    let props = d.schema.kind->Properties_0;
    &&& items_shape_ok(props)
    &&& {
        let irp = items_ref_of(props);
        &&& def_present(defs, irp.path)
        &&& match def_schema(defs, irp.path).kubernetes_group_kind_versions {
            Some(gs) => gs.len() == 1 && (match d.schema.kubernetes_group_kind_versions {
                Some(cs) => cs.len() == 1 && cs[0].group == gs[0].group && cs[0].version
                    == gs[0].version && cs[0].kind == gs[0].kind + list_suffix(),
                None => false,
            }),
            None => false,
        }
    }
}

/// Whether two property lists carry the same name set.
pub open spec fn same_name_set(a: Seq<PropertyView>, b: Seq<PropertyView>) -> bool {
    forall|n: Seq<char>| #[trigger] prop_present(a, n) <==> prop_present(b, n)
}

/// Index of the first list candidate, or `defs.len()` if there is none.
pub open spec fn candidate_index(defs: Seq<DefinitionView>) -> int
    decreases defs.len(),
{
    if defs.len() == 0 {
        0
    } else if is_list_candidate(defs[0]) {
        0
    } else {
        1 + candidate_index(defs.drop_first())
    }
}

/// The characterization of `candidate_index`.
pub proof fn lemma_candidate_index(defs: Seq<DefinitionView>)
    ensures
        0 <= candidate_index(defs) <= defs.len(),
        candidate_index(defs) < defs.len() ==> is_list_candidate(defs[candidate_index(defs)]),
        forall|j: int| 0 <= j < candidate_index(defs) ==> !is_list_candidate(#[trigger] defs[j]),
    decreases defs.len(),
{
    if defs.len() != 0 && !is_list_candidate(defs[0]) {
        lemma_candidate_index(defs.drop_first());
        assert forall|j: int| 0 <= j < candidate_index(defs) implies !is_list_candidate(
            #[trigger] defs[j],
        ) by {
            if j > 0 {
                assert(defs[j] == defs.drop_first()[j - 1]);
            }
        }
    }
}

/// The (wrapper path, item reference) pairs of all candidates, in order.
pub open spec fn candidate_pairs(defs: Seq<DefinitionView>) -> Seq<(Seq<char>, RefPathView)>
    decreases defs.len(),
{
    if defs.len() == 0 {
        Seq::empty()
    } else {
        let rest = candidate_pairs(defs.drop_last());
        if is_list_candidate(defs.last()) {
            rest.push((defs.last().path, items_ref_of(defs.last().schema.kind->Properties_0)))
        } else {
            rest
        }
    }
}

/// `candidate_pairs` over one more definition.
pub proof fn lemma_candidate_pairs_take_step(defs: Seq<DefinitionView>, i: int)
    requires
        0 <= i < defs.len(),
    ensures
        candidate_pairs(defs.take(i + 1)) == if is_list_candidate(defs[i]) {
            candidate_pairs(defs.take(i)).push(
                (defs[i].path, items_ref_of(defs[i].schema.kind->Properties_0)),
            )
        } else {
            candidate_pairs(defs.take(i))
        },
{
    assert(defs.take(i + 1).drop_last() =~= defs.take(i));
    assert(defs.take(i + 1).last() == defs[i]);
}

/// Every candidate pair carries the path of some candidate definition.
pub proof fn lemma_pair_from_candidate(defs: Seq<DefinitionView>, w: int)
    requires
        0 <= w < candidate_pairs(defs).len(),
    ensures
        exists|i: int|
            0 <= i < defs.len() && is_list_candidate(#[trigger] defs[i]) && candidate_pairs(
                defs,
            )[w].0 == defs[i].path,
    decreases defs.len(),
{
    let rest = candidate_pairs(defs.drop_last());
    if w < rest.len() {
        lemma_pair_from_candidate(defs.drop_last(), w);
        let i = choose|i: int|
            0 <= i < defs.drop_last().len() && is_list_candidate(#[trigger] defs.drop_last()[i])
                && candidate_pairs(defs.drop_last())[w].0 == defs.drop_last()[i].path;
        assert(defs[i] == defs.drop_last()[i]);
        assert(candidate_pairs(defs)[w] == rest[w]);
    } else {
        assert(is_list_candidate(defs[defs.len() - 1]));
        assert(candidate_pairs(defs)[w].0 == defs.last().path);
    }
}

/// Remove the first definition named `path`, if any.
pub open spec fn def_remove(defs: Seq<DefinitionView>, path: Seq<char>) -> Seq<DefinitionView> {
    if def_present(defs, path) {
        defs.remove(def_index(defs, path))
    } else {
        defs
    }
}

/// Mark the definition named `path` as having a corresponding list type.
pub open spec fn def_set_list_flag(defs: Seq<DefinitionView>, path: Seq<char>) -> Seq<
    DefinitionView,
> {
    defs.update(
        def_index(defs, path),
        DefinitionView {
            path: defs[def_index(defs, path)].path,
            schema: SchemaView {
                has_corresponding_list_type: true,
                ..defs[def_index(defs, path)].schema
            },
        },
    )
}

/// For each candidate in order: mark its item definition, then remove the
/// wrapper.  `None` when some item definition is gone at its turn.
pub open spec fn mark_and_remove(
    defs: Seq<DefinitionView>,
    cands: Seq<(Seq<char>, RefPathView)>,
) -> Option<Seq<DefinitionView>>
    decreases cands.len(),
{
    if cands.len() == 0 {
        Some(defs)
    } else {
        let (cpath, irp) = cands[0];
        if def_present(defs, irp.path) {
            mark_and_remove(
                def_remove(def_set_list_flag(defs, irp.path), cpath),
                cands.drop_first(),
            )
        } else {
            None
        }
    }
}

/// A schema kind with references to `cpath` replaced by a list-reference to
/// `irp`.
pub open spec fn rewrite_kind(k: SchemaKindView, cpath: Seq<char>, irp: RefPathView)
    -> SchemaKindView {
    match k {
        SchemaKindView::Ref(rp) => if rp.path == cpath {
            SchemaKindView::Ty(
                TypeView::ListRef { items: Box::new(SchemaKindView::Ref(irp)) },
            )
        } else {
            k
        },
        _ => k,
    }
}

/// A definition's schema with each direct property reference rewritten.
pub open spec fn rewrite_def_schema(sch: SchemaView, cpath: Seq<char>, irp: RefPathView)
    -> SchemaView {
    match sch.kind {
        SchemaKindView::Properties(props) => SchemaView {
            kind: SchemaKindView::Properties(
                Seq::new(
                    props.len(),
                    |j: int|
                        PropertyView {
                            schema: SchemaView {
                                kind: rewrite_kind(props[j].schema.kind, cpath, irp),
                                ..props[j].schema
                            },
                            ..props[j]
                        },
                ),
            ),
            ..sch
        },
        _ => sch,
    }
}

/// One candidate's references rewritten across all definitions and all
/// operation responses.
pub open spec fn rewrite_one(s: ApiSpecView, cpath: Seq<char>, irp: RefPathView) -> ApiSpecView {
    ApiSpecView {
        definitions: Seq::new(
            s.definitions.len(),
            |i: int|
                DefinitionView {
                    path: s.definitions[i].path,
                    schema: rewrite_def_schema(s.definitions[i].schema, cpath, irp),
                },
        ),
        operations: Seq::new(
            s.operations.len(),
            |i: int|
                OperationView {
                    responses: Seq::new(
                        s.operations[i].responses.len(),
                        |j: int|
                            ResponseView {
                                status: s.operations[i].responses[j].status,
                                schema: SchemaView {
                                    kind: rewrite_kind(
                                        s.operations[i].responses[j].schema.kind,
                                        cpath,
                                        irp,
                                    ),
                                    ..s.operations[i].responses[j].schema
                                },
                            },
                    ),
                    ..s.operations[i]
                },
        ),
    }
}

/// All candidates' references rewritten, in order.
pub open spec fn rewrite_all(s: ApiSpecView, cands: Seq<(Seq<char>, RefPathView)>) -> ApiSpecView
    decreases cands.len(),
{
    if cands.len() == 0 {
        s
    } else {
        rewrite_all(rewrite_one(s, cands[0].0, cands[0].1), cands.drop_first())
    }
}

/// `mark_and_remove` split at a prefix.
pub proof fn lemma_mark_and_remove_split(
    defs: Seq<DefinitionView>,
    cands: Seq<(Seq<char>, RefPathView)>,
    k: int,
)
    requires
        0 <= k <= cands.len(),
    ensures
        mark_and_remove(defs, cands) == (match mark_and_remove(defs, cands.take(k)) {
            Some(d) => mark_and_remove(d, cands.skip(k)),
            None => None,
        }),
    decreases k,
{
    if k == 0 {
        assert(cands.take(0) =~= Seq::empty());
        assert(cands.skip(0) =~= cands);
    } else {
        let (cpath, irp) = cands[0];
        assert(cands.take(k)[0] == cands[0]);
        assert(cands.take(k).len() != 0);
        if def_present(defs, irp.path) {
            let defs1 = def_remove(def_set_list_flag(defs, irp.path), cpath);
            lemma_mark_and_remove_split(defs1, cands.drop_first(), k - 1);
            assert(cands.take(k).drop_first() =~= cands.drop_first().take(k - 1));
            assert(cands.skip(k) =~= cands.drop_first().skip(k - 1));
        } else {
            assert(mark_and_remove(defs, cands.take(k)) is None);
        }
    }
}

/// `rewrite_all` split at a prefix.
pub proof fn lemma_rewrite_all_split(
    s: ApiSpecView,
    cands: Seq<(Seq<char>, RefPathView)>,
    k: int,
)
    requires
        0 <= k <= cands.len(),
    ensures
        rewrite_all(s, cands) == rewrite_all(rewrite_all(s, cands.take(k)), cands.skip(k)),
    decreases k,
{
    if k == 0 {
        assert(cands.take(0) =~= Seq::empty());
        assert(cands.skip(0) =~= cands);
    } else {
        let s1 = rewrite_one(s, cands[0].0, cands[0].1);
        assert(cands.take(k)[0] == cands[0]);
        assert(cands.take(k).len() != 0);
        lemma_rewrite_all_split(s1, cands.drop_first(), k - 1);
        assert(cands.take(k).drop_first() =~= cands.drop_first().take(k - 1));
        assert(cands.skip(k) =~= cands.drop_first().skip(k - 1));
    }
}

/// The synthesized generic list definition, parameterized over the first
/// candidate's metadata schema kind.
pub open spec fn list_def_entry(metadata: SchemaKindView) -> SchemaView {
    SchemaView {
        description: Some(list_def_description()),
        kind: SchemaKindView::Ty(TypeView::ListDef { metadata: Box::new(metadata) }),
        kubernetes_group_kind_versions: None,
        has_corresponding_list_type: false,
    }
}

/// Whether the list pass succeeds: a candidate exists, every candidate's
/// cross-references line up, all candidates share one property-name set, and
/// every item definition is still present when its wrapper is removed.
pub open spec fn can_list(s: ApiSpecView) -> bool {
    let defs = s.definitions;
    let first = defs[candidate_index(defs)];
    &&& candidate_index(defs) < defs.len()
    &&& forall|i: int|
        0 <= i < defs.len() && is_list_candidate(#[trigger] defs[i]) ==> candidate_ok(defs, defs[i])
    &&& forall|i: int|
        0 <= i < defs.len() && is_list_candidate(#[trigger] defs[i]) ==> same_name_set(
            defs[i].schema.kind->Properties_0,
            first.schema.kind->Properties_0,
        )
    &&& mark_and_remove(
        def_insert(defs, list_def_path(), list_def_entry(metadata_kind_of(first))),
        candidate_pairs(defs),
    ) is Some
}

/// The full effect of the list pass.
pub open spec fn apply_list(s: ApiSpecView) -> ApiSpecView {
    let defs = s.definitions;
    let first = defs[candidate_index(defs)];
    let cands = candidate_pairs(defs);
    let defs1 = def_insert(defs, list_def_path(), list_def_entry(metadata_kind_of(first)));
    let defs2 = mark_and_remove(defs1, cands)->0;
    rewrite_all(ApiSpecView { definitions: defs2, operations: s.operations }, cands)
}

/// A "looks like a list" failure naming the definition path.
fn list_shape_err(path: &str, what: &str) -> (e: FixupError)
    ensures
        e.message@ == "definition "@ + path@ + what@,
        crate::text::text_contains(e.message@, path@),
{
    let msg = str_concat3("definition ", path, what);
    proof {
        crate::text::lemma_concat_contains_middle("definition "@, path@, what@);
    }
    FixupError { message: msg }
}

/// Whether the executable definition looks like a list wrapper.
fn check_list_candidate(d: &Definition) -> (r: bool)
    ensures
        r == is_list_candidate(d@),
{
    if !str_ends_with(d.path.as_str(), "List") {
        return false;
    }
    let props = match &d.schema.kind {
        SchemaKind::Properties(props) => props,
        _ => {
            return false;
        },
    };
    let ghost pv = crate::ir::view_properties(props@);
    proof {
        crate::ir::lemma_view_properties(props@);
        assert(d@.schema.kind == SchemaKindView::Properties(pv));
    }
    let ip = match find_property(props, "items") {
        Some(ip) => ip,
        None => {
            return false;
        },
    };
    if !props[ip].required {
        proof {
            assert(pv[ip as int] == crate::ir::view_property(props@[ip as int]));
        }
        return false;
    }
    let mp = match find_property(props, "metadata") {
        Some(mp) => mp,
        None => {
            return false;
        },
    };
    proof {
        assert(pv[ip as int] == crate::ir::view_property(props@[ip as int]));
        assert(pv[mp as int] == crate::ir::view_property(props@[mp as int]));
    }
    if props[mp].required {
        return false;
    }
    match &props[mp].schema.kind {
        SchemaKind::Ref(rp) => str_ends_with(rp.path.as_str(), ".ListMeta"),
        _ => false,
    }
}

/// The reference inside a candidate's `items` array, or the matching
/// failure.
fn candidate_item_ref(path: &str, sch: &Schema) -> (r: Result<RefPath, FixupError>)
    ensures
        r matches Ok(rp) ==> schema_items_shape_ok(sch@) && schema_items_ref(sch@) == rp@,
        r is Err ==> !schema_items_shape_ok(sch@),
        r matches Err(e) ==> crate::text::text_contains(e.message@, path@),
{
    match &sch.kind {
        SchemaKind::Ty(t) => match t {
            Type::Array { items } => {
                let inner: &Schema = &**items;
                proof {
                    assert(sch@.kind == SchemaKindView::Ty(crate::ir::view_type(*t)));
                    assert(crate::ir::view_type(*t) == (TypeView::Array {
                        items: Box::new(crate::ir::view_schema(*inner)),
                    }));
                }
                match &inner.kind {
                    SchemaKind::Ref(rp) => Ok(rp.deep_clone()),
                    _ => Err(
                        list_shape_err(path, " looks like a list but its items property is not a ref"),
                    ),
                }
            },
            _ => Err(
                list_shape_err(path, " looks like a list but doesn't have an items property"),
            ),
        },
        _ => Err(
            list_shape_err(path, " looks like a list but doesn't have an items property"),
        ),
    }
}

/// Whether the property names of `props` are exactly the names in `snap`.
fn props_match_snapshot(props: &Vec<Property>, snap: &Vec<String>) -> (r: bool)
    ensures
        r == ({
            let pv = crate::ir::view_properties(props@);
            let sv = crate::ir::view_strings(snap@);
            &&& (forall|j: int| 0 <= j < pv.len() ==> sv.contains(#[trigger] pv[j].name))
            &&& (forall|k: int| 0 <= k < sv.len() ==> prop_present(pv, #[trigger] sv[k]))
        }),
{
    let ghost pv = crate::ir::view_properties(props@);
    let ghost sv = crate::ir::view_strings(snap@);
    proof {
        crate::ir::lemma_view_properties(props@);
    }
    let mut j: usize = 0;
    while j < props.len()
        invariant
            j <= props@.len(),
            pv == crate::ir::view_properties(props@),
            sv == crate::ir::view_strings(snap@),
            pv.len() == props@.len(),
            forall|w: int| 0 <= w < props@.len() ==> pv[w] == crate::ir::view_property(props@[w]),
            forall|w: int| 0 <= w < j ==> sv.contains(#[trigger] pv[w].name),
        decreases props@.len() - j,
    {
        if !names_contain(snap, props[j].name.as_str()) {
            proof {
                assert(pv[j as int].name == props@[j as int].name@);
            }
            return false;
        }
        j = j + 1;
    }
    let mut k: usize = 0;
    while k < snap.len()
        invariant
            k <= snap@.len(),
            pv == crate::ir::view_properties(props@),
            sv == crate::ir::view_strings(snap@),
            sv.len() == snap@.len(),
            forall|w: int| 0 <= w < k ==> prop_present(pv, #[trigger] sv[w]),
        decreases snap@.len() - k,
    {
        match find_property(props, snap[k].as_str()) {
            Some(_) => {},
            None => {
                proof {
                    assert(sv[k as int] == snap@[k as int]@);
                    crate::model::lemma_prop_index(pv, sv[k as int]);
                }
                return false;
            },
        }
        k = k + 1;
    }
    true
}

/// The properties of one definition with direct references to `cpath`
/// rewritten into list-references to `irp`.
fn rewrite_properties(props: &Vec<Property>, cpath: &str, irp: &RefPath) -> (r: Vec<Property>)
    ensures
        ({
            let pv = crate::ir::view_properties(props@);
            let rv = crate::ir::view_properties(r@);
            &&& rv.len() == pv.len()
            &&& forall|j: int|
                0 <= j < pv.len() ==> rv[j] == (PropertyView {
                    schema: SchemaView {
                        kind: rewrite_kind(pv[j].schema.kind, cpath@, irp@),
                        ..pv[j].schema
                    },
                    ..pv[j]
                })
        }),
{
    let ghost pv = crate::ir::view_properties(props@);
    proof {
        crate::ir::lemma_view_properties(props@);
    }
    let mut r: Vec<Property> = Vec::new();
    let mut j: usize = 0;
    while j < props.len()
        invariant
            j <= props@.len(),
            pv == crate::ir::view_properties(props@),
            pv.len() == props@.len(),
            forall|w: int| 0 <= w < props@.len() ==> pv[w] == crate::ir::view_property(props@[w]),
            r@.len() == j,
            forall|w: int|
                0 <= w < j ==> r@[w]@ == (PropertyView {
                    schema: SchemaView {
                        kind: rewrite_kind(pv[w].schema.kind, cpath@, irp@),
                        ..pv[w].schema
                    },
                    ..pv[w]
                }),
        decreases props@.len() - j,
    {
        let p = &props[j];
        let is_target = match &p.schema.kind {
            SchemaKind::Ref(rp) => str_eq(rp.path.as_str(), cpath),
            _ => false,
        };
        let new_kind = if is_target {
            let inner_ref = SchemaKind::Ref(irp.deep_clone());
            proof {
                assert(crate::ir::view_schema_kind(inner_ref) == SchemaKindView::Ref(irp@));
            }
            SchemaKind::Ty(Type::ListRef { items: Box::new(inner_ref) })
        } else {
            p.schema.kind.deep_clone()
        };
        r.push(
            Property {
                name: p.name.clone(),
                schema: Schema {
                    description: crate::ir::clone_opt_string(&p.schema.description),
                    kind: new_kind,
                    kubernetes_group_kind_versions: crate::ir::clone_gvks(
                        &p.schema.kubernetes_group_kind_versions,
                    ),
                    has_corresponding_list_type: p.schema.has_corresponding_list_type,
                },
                required: p.required,
            },
        );
        proof {
            assert(r@[j as int]@.name == pv[j as int].name);
            assert(r@[j as int]@.required == pv[j as int].required);
            assert(r@[j as int]@.schema.description == pv[j as int].schema.description);
            assert(r@[j as int]@.schema.kubernetes_group_kind_versions == pv[
                j as int].schema.kubernetes_group_kind_versions);
            assert(r@[j as int]@.schema.has_corresponding_list_type == pv[
                j as int].schema.has_corresponding_list_type);
            assert(r@[j as int]@.schema.kind == rewrite_kind(
                pv[j as int].schema.kind,
                cpath@,
                irp@,
            ));
        }
        j = j + 1;
    }
    proof {
        crate::ir::lemma_view_properties(r@);
    }
    r
}

/// The responses of one operation with direct references to `cpath`
/// rewritten into list-references to `irp`.
fn rewrite_responses(rs: &Vec<Response>, cpath: &str, irp: &RefPath) -> (r: Vec<Response>)
    ensures
        ({
            let rv0 = crate::ir::view_responses(rs@);
            let rv = crate::ir::view_responses(r@);
            &&& rv.len() == rv0.len()
            &&& forall|j: int|
                0 <= j < rv0.len() ==> rv[j] == (ResponseView {
                    status: rv0[j].status,
                    schema: SchemaView {
                        kind: rewrite_kind(rv0[j].schema.kind, cpath@, irp@),
                        ..rv0[j].schema
                    },
                })
        }),
{
    let ghost rv0 = crate::ir::view_responses(rs@);
    let mut r: Vec<Response> = Vec::new();
    let mut j: usize = 0;
    while j < rs.len()
        invariant
            j <= rs@.len(),
            rv0 == crate::ir::view_responses(rs@),
            rv0.len() == rs@.len(),
            r@.len() == j,
            forall|w: int|
                0 <= w < j ==> r@[w]@ == (ResponseView {
                    status: rv0[w].status,
                    schema: SchemaView {
                        kind: rewrite_kind(rv0[w].schema.kind, cpath@, irp@),
                        ..rv0[w].schema
                    },
                }),
        decreases rs@.len() - j,
    {
        let p = &rs[j];
        let is_target = match &p.schema.kind {
            SchemaKind::Ref(rp) => str_eq(rp.path.as_str(), cpath),
            _ => false,
        };
        let new_kind = if is_target {
            let inner_ref = SchemaKind::Ref(irp.deep_clone());
            proof {
                assert(crate::ir::view_schema_kind(inner_ref) == SchemaKindView::Ref(irp@));
            }
            SchemaKind::Ty(Type::ListRef { items: Box::new(inner_ref) })
        } else {
            p.schema.kind.deep_clone()
        };
        proof {
            assert(rv0[j as int] == rs@[j as int]@);
        }
        r.push(
            Response {
                status: p.status,
                schema: Schema {
                    description: crate::ir::clone_opt_string(&p.schema.description),
                    kind: new_kind,
                    kubernetes_group_kind_versions: crate::ir::clone_gvks(
                        &p.schema.kubernetes_group_kind_versions,
                    ),
                    has_corresponding_list_type: p.schema.has_corresponding_list_type,
                },
            },
        );
        proof {
            assert(r@[j as int]@.status == rv0[j as int].status);
            assert(r@[j as int]@.schema.description == rv0[j as int].schema.description);
            assert(r@[j as int]@.schema.kubernetes_group_kind_versions == rv0[
                j as int].schema.kubernetes_group_kind_versions);
            assert(r@[j as int]@.schema.has_corresponding_list_type == rv0[
                j as int].schema.has_corresponding_list_type);
            assert(r@[j as int]@.schema.kind == rewrite_kind(
                rv0[j as int].schema.kind,
                cpath@,
                irp@,
            ));
        }
        j = j + 1;
    }
    r
}

/// Recognize every list-wrapper definition, synthesize the generic list
/// definition, mark the item definitions, delete the wrappers, and rewrite
/// every reference to a wrapper into a list-reference to its item type.  On
/// failure, partially rewritten state may remain; the caller discards the
/// spec.
#[verifier::loop_isolation(false)]
#[verifier::rlimit(100)]
pub fn list(s: &mut ApiSpec) -> (r: Result<(), FixupError>)
    ensures
        r is Ok <==> can_list(old(s)@),
        r is Ok ==> final(s)@ == apply_list(old(s)@),
        r is Err ==> (candidate_index(old(s)@.definitions) == old(s)@.definitions.len()
            ==> final(s)@ == old(s)@),
        r matches Err(e) ==> ({
            let defs = old(s)@.definitions;
            let first = defs[candidate_index(defs)];
            ||| (candidate_index(defs) == defs.len() && e.message@
                == "did not find any types that looked like a list"@)
            ||| (exists|i: int|
                0 <= i < defs.len() && is_list_candidate(#[trigger] defs[i]) && (!candidate_ok(
                    defs,
                    defs[i],
                ) || !same_name_set(
                    defs[i].schema.kind->Properties_0,
                    first.schema.kind->Properties_0,
                )) && crate::text::text_contains(e.message@, defs[i].path))
            ||| (mark_and_remove(
                def_insert(defs, list_def_path(), list_def_entry(metadata_kind_of(first))),
                candidate_pairs(defs),
            ) is None && exists|i: int|
                0 <= i < defs.len() && is_list_candidate(#[trigger] defs[i])
                    && crate::text::text_contains(e.message@, defs[i].path))
        }),
{
    let ghost defs0 = old(s)@.definitions;
    let ghost cidx = candidate_index(defs0);
    let ghost pairs = candidate_pairs(defs0);
    proof {
        lemma_candidate_index(defs0);
    }
    let mut cand_paths: Vec<String> = Vec::new();
    let mut cand_refs: Vec<RefPath> = Vec::new();
    let mut snap: Vec<String> = Vec::new();
    let mut have_first = false;
    let mut meta_kind: SchemaKind = SchemaKind::Ty(Type::Patch);
    let mut i: usize = 0;
    while i < s.definitions.len()
        invariant
            i <= s.definitions@.len(),
            s.definitions@ == old(s).definitions@,
            s.operations@ == old(s).operations@,
            defs0.len() == s.definitions@.len(),
            cand_paths@.len() == cand_refs@.len(),
            Seq::new(cand_paths@.len(), |w: int| (cand_paths@[w]@, cand_refs@[w]@))
                == candidate_pairs(defs0.take(i as int)),
            forall|w: int|
                0 <= w < i && is_list_candidate(#[trigger] defs0[w]) ==> candidate_ok(
                    defs0,
                    defs0[w],
                ),
            have_first <==> cidx < i,
            !have_first ==> snap@.len() == 0,
            have_first ==> crate::ir::view_schema_kind(meta_kind) == metadata_kind_of(
                defs0[cidx],
            ),
            have_first ==> forall|n: Seq<char>| #[trigger]
                crate::ir::view_strings(snap@).contains(n) <==> prop_present(
                    defs0[cidx].schema.kind->Properties_0,
                    n,
                ),
            forall|w: int|
                0 <= w < i && is_list_candidate(#[trigger] defs0[w]) ==> same_name_set(
                    defs0[w].schema.kind->Properties_0,
                    defs0[cidx].schema.kind->Properties_0,
                ),
        decreases s.definitions@.len() - i,
    {
        let ghost dv = defs0[i as int];
        proof {
            assert(dv == s.definitions@[i as int]@);
            lemma_candidate_pairs_take_step(defs0, i as int);
        }
        let is_cand = check_list_candidate(&s.definitions[i]);
        if is_cand {
            let d = &s.definitions[i];
            let props = match &d.schema.kind {
                SchemaKind::Properties(props) => props,
                _ => {
                    proof {
                        assert(false);
                    }
                    return Err(FixupError::new("did not find any types that looked like a list"));
                },
            };
            let ghost propsv = crate::ir::view_properties(props@);
            proof {
                crate::ir::lemma_view_properties(props@);
                assert(dv.schema.kind == SchemaKindView::Properties(propsv));
            }
            let ip = match find_property(props, "items") {
                Some(ip) => ip,
                None => {
                    proof {
                        assert(false);
                    }
                    return Err(FixupError::new("did not find any types that looked like a list"));
                },
            };
            proof {
                assert(propsv[ip as int] == crate::ir::view_property(props@[ip as int]));
            }
            let irp = match candidate_item_ref(d.path.as_str(), &props[ip].schema) {
                Ok(rp) => rp,
                Err(e) => {
                    proof {
                        assert(!items_shape_ok(propsv));
                        assert(!candidate_ok(defs0, defs0[i as int]));
                        assert(!can_list(old(s)@));
                        assert(crate::text::text_contains(e.message@, defs0[i as int].path));
                    }
                    return Err(e);
                },
            };
            proof {
                assert(items_shape_ok(propsv) && items_ref_of(propsv) == irp@);
            }
            let idef = match find_definition(&s.definitions, irp.path.as_str()) {
                Some(x) => x,
                None => {
                    let e = list_shape_err(
                        d.path.as_str(),
                        " looks like a list but its item's definition does not exist in the spec",
                    );
                    proof {
                        assert(!candidate_ok(defs0, defs0[i as int]));
                        assert(!can_list(old(s)@));
                        assert(crate::text::text_contains(e.message@, defs0[i as int].path));
                    }
                    return Err(e);
                },
            };
            proof {
                lemma_def_index(defs0, irp@.path);
                assert(defs0[idef as int] == s.definitions@[idef as int]@);
                assert(def_schema(defs0, irp@.path) == defs0[idef as int].schema);
            }
            let item_gvk: &crate::ir::GroupVersionKind = match &s.definitions[idef]
                .schema
                .kubernetes_group_kind_versions {
                Some(gs) => {
                    if gs.len() != 1 {
                        let e = list_shape_err(
                            d.path.as_str(),
                            " looks like a list but its item's definition does not have a single group-version-kind",
                        );
                        proof {
                            assert(!candidate_ok(defs0, defs0[i as int]));
                            assert(!can_list(old(s)@));
                            assert(crate::text::text_contains(e.message@, defs0[i as int].path));
                        }
                        return Err(e);
                    }
                    &gs[0]
                },
                None => {
                    let e = list_shape_err(
                        d.path.as_str(),
                        " looks like a list but its item's definition does not have a group-version-kind",
                    );
                    proof {
                        assert(!candidate_ok(defs0, defs0[i as int]));
                        assert(!can_list(old(s)@));
                        assert(crate::text::text_contains(e.message@, defs0[i as int].path));
                    }
                    return Err(e);
                },
            };
            let cand_gvk: &crate::ir::GroupVersionKind = match &d
                .schema
                .kubernetes_group_kind_versions {
                Some(cs) => {
                    if cs.len() != 1 {
                        let e = list_shape_err(
                            d.path.as_str(),
                            " looks like a list but it does not have a single group-version-kind",
                        );
                        proof {
                            assert(!candidate_ok(defs0, defs0[i as int]));
                            assert(!can_list(old(s)@));
                            assert(crate::text::text_contains(e.message@, defs0[i as int].path));
                        }
                        return Err(e);
                    }
                    &cs[0]
                },
                None => {
                    let e = list_shape_err(
                        d.path.as_str(),
                        " looks like a list but it does not have a group-version-kind",
                    );
                    proof {
                        assert(!candidate_ok(defs0, defs0[i as int]));
                        assert(!can_list(old(s)@));
                        assert(crate::text::text_contains(e.message@, defs0[i as int].path));
                    }
                    return Err(e);
                },
            };
            let expected_kind = str_concat(item_gvk.kind.as_str(), "List");
            if !(str_eq(cand_gvk.group.as_str(), item_gvk.group.as_str()) && str_eq(
                cand_gvk.version.as_str(),
                item_gvk.version.as_str(),
            ) && str_eq(cand_gvk.kind.as_str(), expected_kind.as_str())) {
                let e = list_shape_err(
                    d.path.as_str(),
                    " looks like a list but its group-version-kind does not correspond to its item's group-version-kind",
                );
                proof {
                    assert(!candidate_ok(defs0, defs0[i as int]));
                    assert(!can_list(old(s)@));
                    assert(crate::text::text_contains(e.message@, defs0[i as int].path));
                }
                return Err(e);
            }
            proof {
                assert(candidate_ok(defs0, defs0[i as int]));
            }
            if !have_first {
                proof {
                    assert(cidx == i as int);
                }
                let mp = match find_property(props, "metadata") {
                    Some(mp) => mp,
                    None => {
                        proof {
                            assert(false);
                        }
                        return Err(
                            FixupError::new("did not find any types that looked like a list"),
                        );
                    },
                };
                proof {
                    assert(propsv[mp as int] == crate::ir::view_property(props@[mp as int]));
                }
                meta_kind = props[mp].schema.kind.deep_clone();
                let mut w: usize = 0;
                while w < props.len()
                    invariant
                        w <= props@.len(),
                        snap@.len() == w,
                        forall|q: int| 0 <= q < w ==> snap@[q]@ == propsv[q].name,
                    decreases props@.len() - w,
                {
                    snap.push(props[w].name.clone());
                    proof {
                        assert(propsv[w as int] == crate::ir::view_property(props@[w as int]));
                    }
                    w = w + 1;
                }
                have_first = true;
                proof {
                    let sv = crate::ir::view_strings(snap@);
                    assert forall|n: Seq<char>| #[trigger] sv.contains(n) implies prop_present(
                        propsv,
                        n,
                    ) by {
                        let q = choose|q: int| 0 <= q < sv.len() && sv[q] == n;
                        assert(propsv[q].name == n);
                        lemma_prop_index(propsv, n);
                        if !prop_present(propsv, n) {
                            assert(propsv[q].name != n);
                        }
                    }
                    assert forall|n: Seq<char>| prop_present(propsv, n) implies #[trigger]
                        sv.contains(n) by {
                        lemma_prop_index(propsv, n);
                        let q = prop_index(propsv, n);
                        assert(sv[q] == n);
                    }
                }
            } else {
                let ghost firstprops = defs0[cidx].schema.kind->Properties_0;
                let ghost sv = crate::ir::view_strings(snap@);
                if !props_match_snapshot(props, &snap) {
                    proof {
                        if !(forall|j: int|
                            0 <= j < propsv.len() ==> sv.contains(#[trigger] propsv[j].name)) {
                            let j = choose|j: int|
                                0 <= j < propsv.len() && !sv.contains(#[trigger] propsv[j].name);
                            let n = propsv[j].name;
                            lemma_prop_index(propsv, n);
                            if !prop_present(propsv, n) {
                                assert(propsv[j].name != n);
                            }
                            assert(prop_present(propsv, n));
                            assert(!prop_present(firstprops, n));
                            assert(!same_name_set(propsv, firstprops));
                        } else {
                            let k = choose|k: int|
                                0 <= k < sv.len() && !prop_present(propsv, #[trigger] sv[k]);
                            let n = sv[k];
                            assert(sv.contains(n));
                            assert(prop_present(firstprops, n));
                            assert(!same_name_set(propsv, firstprops));
                        }
                        assert(!can_list(old(s)@));
                    }
                    let mut listing = crate::text::str_copy(": [");
                    let mut w: usize = 0;
                    while w < props.len()
                        decreases props@.len() - w,
                    {
                        if w > 0 {
                            listing.append(", ");
                        }
                        listing.append(props[w].name.as_str());
                        w = w + 1;
                    }
                    listing.append("]");
                    let msg = str_concat3(
                        "Definition ",
                        d.path.as_str(),
                        " looks like a list but doesn't have the expected properties",
                    );
                    let msg = str_concat(msg.as_str(), listing.as_str());
                    proof {
                        let tail =
                            " looks like a list but doesn't have the expected properties"@
                            + listing@;
                        assert(msg@ =~= "Definition "@ + defs0[i as int].path + tail);
                        crate::text::lemma_concat_contains_middle(
                            "Definition "@,
                            defs0[i as int].path,
                            tail,
                        );
                        assert(crate::text::text_contains(msg@, defs0[i as int].path));
                    }
                    return Err(FixupError { message: msg });
                }
                proof {
                    assert forall|n: Seq<char>| #[trigger] prop_present(propsv, n) implies
                        prop_present(firstprops, n) by {
                        lemma_prop_index(propsv, n);
                        let q = prop_index(propsv, n);
                        assert(sv.contains(propsv[q].name));
                    }
                    assert forall|n: Seq<char>| prop_present(firstprops, n) implies #[trigger]
                        prop_present(propsv, n) by {
                        assert(sv.contains(n));
                        let q = choose|q: int| 0 <= q < sv.len() && sv[q] == n;
                        assert(prop_present(propsv, sv[q]));
                    }
                    assert(same_name_set(propsv, firstprops));
                }
            }
            let ghost prev_len = cand_paths@.len();
            cand_paths.push(d.path.clone());
            cand_refs.push(irp);
            proof {
                assert(Seq::new(cand_paths@.len(), |w: int| (cand_paths@[w]@, cand_refs@[w]@))
                    =~= candidate_pairs(defs0.take(i as int + 1)));
            }
        }
        i = i + 1;
    }
    proof {
        assert(defs0.take(defs0.len() as int) =~= defs0);
    }
    if !have_first {
        proof {
            assert(!can_list(old(s)@));
            assert(s@ =~= old(s)@);
        }
        return Err(FixupError::new("did not find any types that looked like a list"));
    }
    let ghost first = defs0[cidx];
    proof {
        assert(crate::ir::view_schema_kind(meta_kind) == metadata_kind_of(first));
    }
    let entry = Schema {
        description: Some(crate::text::str_copy("List is a list of resources.")),
        kind: SchemaKind::Ty(Type::ListDef { metadata: Box::new(meta_kind) }),
        kubernetes_group_kind_versions: None,
        has_corresponding_list_type: false,
    };
    proof {
        assert(entry@ == list_def_entry(metadata_kind_of(first)));
    }
    insert_definition(&mut s.definitions, crate::text::str_copy("io.k8s.List"), entry);
    let ghost defs1 = def_insert(defs0, list_def_path(), list_def_entry(metadata_kind_of(first)));
    proof {
        assert(crate::ir::view_definitions(s.definitions@) == defs1);
    }
    let mut k: usize = 0;
    while k < cand_paths.len()
        invariant
            k <= cand_paths@.len(),
            s.operations@ == old(s).operations@,
            cand_paths@.len() == cand_refs@.len(),
            pairs.len() == cand_paths@.len(),
            forall|w: int|
                0 <= w < pairs.len() ==> #[trigger] pairs[w] == (cand_paths@[w]@, cand_refs@[w]@),
            mark_and_remove(defs1, pairs.take(k as int)) == Some(
                crate::ir::view_definitions(s.definitions@),
            ),
        decreases cand_paths@.len() - k,
    {
        let ghost cur = crate::ir::view_definitions(s.definitions@);
        proof {
            lemma_mark_and_remove_split(defs1, pairs.take(k as int + 1), k as int);
            assert(pairs.take(k as int + 1).take(k as int) =~= pairs.take(k as int));
            assert(pairs.take(k as int + 1).skip(k as int) =~= seq![pairs[k as int]]);
            assert(seq![pairs[k as int]].drop_first() =~= Seq::<(Seq<char>, RefPathView)>::empty());
        }
        let idx = match find_definition(&s.definitions, cand_refs[k].path.as_str()) {
            Some(x) => x,
            None => {
                let e = list_shape_err(
                    cand_paths[k].as_str(),
                    " looks like a list but its item's definition does not exist in the spec",
                );
                proof {
                    assert(mark_and_remove(defs1, pairs.take(k as int + 1)) is None);
                    lemma_mark_and_remove_split(defs1, pairs, k as int + 1);
                    assert(mark_and_remove(defs1, pairs) is None);
                    assert(!can_list(old(s)@));
                    lemma_pair_from_candidate(defs0, k as int);
                    let wi = choose|wi: int|
                        0 <= wi < defs0.len() && is_list_candidate(#[trigger] defs0[wi])
                            && candidate_pairs(defs0)[k as int].0 == defs0[wi].path;
                    assert(cand_paths@[k as int]@ == pairs[k as int].0);
                    assert(crate::text::text_contains(e.message@, defs0[wi].path));
                }
                return Err(e);
            },
        };
        proof {
            lemma_def_index(cur, cand_refs@[k as int]@.path);
        }
        let flag_entry = &mut s.definitions[idx];
        flag_entry.schema.has_corresponding_list_type = true;
        let ghost cur2 = def_set_list_flag(cur, cand_refs@[k as int]@.path);
        proof {
            assert(crate::ir::view_definitions(s.definitions@) =~= cur2);
        }
        match find_definition(&s.definitions, cand_paths[k].as_str()) {
            Some(widx) => {
                proof {
                    lemma_def_index(cur2, cand_paths@[k as int]@);
                }
                s.definitions.remove(widx);
                proof {
                    assert(crate::ir::view_definitions(s.definitions@) =~= def_remove(
                        cur2,
                        cand_paths@[k as int]@,
                    ));
                }
            },
            None => {
                proof {
                    assert(def_remove(cur2, cand_paths@[k as int]@) == cur2);
                }
            },
        }
        proof {
            let p_k = pairs[k as int];
            let after = def_remove(def_set_list_flag(cur, p_k.1.path), p_k.0);
            assert(crate::ir::view_definitions(s.definitions@) == after);
            assert(mark_and_remove(after, Seq::<(Seq<char>, RefPathView)>::empty()) == Some(
                after,
            ));
            assert(mark_and_remove(cur, seq![p_k]) == Some(after));
            assert(mark_and_remove(defs1, pairs.take(k as int + 1)) == Some(
                crate::ir::view_definitions(s.definitions@),
            ));
        }
        k = k + 1;
    }
    proof {
        assert(pairs.take(pairs.len() as int) =~= pairs);
    }
    let ghost defs2 = crate::ir::view_definitions(s.definitions@);
    let ghost s3 = ApiSpecView { definitions: defs2, operations: old(s)@.operations };
    proof {
        assert(s@ == s3);
        assert(rewrite_all(s3, pairs.take(0)) == s3) by {
            assert(pairs.take(0) =~= Seq::<(Seq<char>, RefPathView)>::empty());
        }
    }
    let mut k2: usize = 0;
    while k2 < cand_paths.len()
        invariant
            k2 <= cand_paths@.len(),
            cand_paths@.len() == cand_refs@.len(),
            pairs.len() == cand_paths@.len(),
            forall|w: int|
                0 <= w < pairs.len() ==> #[trigger] pairs[w] == (cand_paths@[w]@, cand_refs@[w]@),
            s@ == rewrite_all(s3, pairs.take(k2 as int)),
        decreases cand_paths@.len() - k2,
    {
        let ghost curspec = s@;
        let ghost cp = cand_paths@[k2 as int]@;
        let ghost ir = cand_refs@[k2 as int]@;
        proof {
            lemma_rewrite_all_split(s3, pairs.take(k2 as int + 1), k2 as int);
            assert(pairs.take(k2 as int + 1).take(k2 as int) =~= pairs.take(k2 as int));
            assert(pairs.take(k2 as int + 1).skip(k2 as int) =~= seq![pairs[k2 as int]]);
            assert(seq![pairs[k2 as int]].drop_first() =~= Seq::<(
                Seq<char>,
                RefPathView,
            )>::empty());
            assert(rewrite_all(
                rewrite_one(curspec, cp, ir),
                Seq::<(Seq<char>, RefPathView)>::empty(),
            ) == rewrite_one(curspec, cp, ir));
            assert(rewrite_all(curspec, seq![pairs[k2 as int]]) == rewrite_one(curspec, cp, ir));
            assert(rewrite_all(s3, pairs.take(k2 as int + 1)) == rewrite_one(curspec, cp, ir));
        }
        let ghost target = rewrite_one(curspec, cp, ir);
        let mut di: usize = 0;
        while di < s.definitions.len()
            invariant
                di <= s.definitions@.len(),
                s.definitions@.len() == curspec.definitions.len(),
                crate::ir::view_operations(s.operations@) == curspec.operations,
                target == rewrite_one(curspec, cp, ir),
                target.definitions.len() == curspec.definitions.len(),
                forall|w: int| di <= w < s.definitions@.len()
                    ==> #[trigger] s.definitions@[w]@ == curspec.definitions[w],
                forall|w: int| 0 <= w < di ==> #[trigger] s.definitions@[w]@
                    == target.definitions[w],
            decreases s.definitions@.len() - di,
        {
            let ghost olddef = curspec.definitions[di as int];
            let needs = match &s.definitions[di].schema.kind {
                SchemaKind::Properties(_) => true,
                _ => false,
            };
            if needs {
                proof {
                    assert(olddef == s.definitions@[di as int]@);
                }
                let new_props = match &s.definitions[di].schema.kind {
                    SchemaKind::Properties(props) => {
                        proof {
                            assert(olddef.schema.kind == SchemaKindView::Properties(
                                crate::ir::view_properties(props@),
                            ));
                        }
                        rewrite_properties(props, cand_paths[k2].as_str(), &cand_refs[k2])
                    },
                    _ => {
                        proof {
                            assert(false);
                        }
                        return Err(
                            FixupError::new("did not find any types that looked like a list"),
                        );
                    },
                };
                match &mut s.definitions[di].schema.kind {
                    SchemaKind::Properties(props) => {
                        *props = new_props;
                    },
                    _ => {},
                }
                proof {
                    assert(s.definitions@[di as int]@.schema.kind->Properties_0
                        =~= rewrite_def_schema(olddef.schema, cp, ir).kind->Properties_0);
                    assert(s.definitions@[di as int]@ == target.definitions[di as int]);
                }
            } else {
                proof {
                    assert(olddef == s.definitions@[di as int]@);
                    assert(rewrite_def_schema(olddef.schema, cp, ir) == olddef.schema);
                    assert(s.definitions@[di as int]@ == target.definitions[di as int]);
                }
            }
            di = di + 1;
        }
        let mut oi: usize = 0;
        while oi < s.operations.len()
            invariant
                oi <= s.operations@.len(),
                s.operations@.len() == curspec.operations.len(),
                target == rewrite_one(curspec, cp, ir),
                target.operations.len() == curspec.operations.len(),
                s.definitions@.len() == curspec.definitions.len(),
                forall|w: int| 0 <= w < s.definitions@.len() ==> #[trigger] s.definitions@[w]@
                    == target.definitions[w],
                forall|w: int| oi <= w < s.operations@.len()
                    ==> #[trigger] s.operations@[w]@ == curspec.operations[w],
                forall|w: int| 0 <= w < oi ==> #[trigger] s.operations@[w]@
                    == target.operations[w],
            decreases s.operations@.len() - oi,
        {
            let ghost oldop = curspec.operations[oi as int];
            proof {
                assert(oldop == s.operations@[oi as int]@);
                assert(oldop.responses == crate::ir::view_responses(
                    s.operations@[oi as int].responses@,
                ));
            }
            let new_rs = rewrite_responses(
                &s.operations[oi].responses,
                cand_paths[k2].as_str(),
                &cand_refs[k2],
            );
            let op = &mut s.operations[oi];
            op.responses = new_rs;
            proof {
                assert(crate::ir::view_responses(s.operations@[oi as int].responses@)
                    =~= target.operations[oi as int].responses);
                assert(s.operations@[oi as int]@ == target.operations[oi as int]);
            }
            oi = oi + 1;
        }
        proof {
            assert(s@.definitions =~= target.definitions);
            assert(s@.operations =~= target.operations);
            assert(s@ =~= rewrite_all(s3, pairs.take(k2 as int + 1)));
        }
        k2 = k2 + 1;
    }
    proof {
        assert(pairs.take(pairs.len() as int) =~= pairs);
        assert(can_list(old(s)@));
        assert(s@ == apply_list(old(s)@));
    }
    Ok(())
}

} // verus!
