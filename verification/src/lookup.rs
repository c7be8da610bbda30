//! Verified first-match lookups and ordered-map operations over the vectors
//! that hold definitions, operations, parameters and properties.

use vstd::prelude::*;

use crate::ir::{
    Definition, Operation, Parameter, Property, Schema, view_definitions, view_operations,
    view_parameters, view_properties,
};
use crate::model::{
    ParameterLocation, body_param_index, def_index, def_insert, def_present, lemma_body_param_index,
    lemma_def_index, lemma_op_index, lemma_optional_param_index, lemma_prop_index, op_index,
    optional_param_index, path_params, prop_index, required_params,
};
use crate::text::str_eq;

verus! {

/// Index of the first definition named `path`, if any.
pub fn find_definition(defs: &Vec<Definition>, path: &str) -> (r: Option<usize>)
    ensures
        match r {
            Some(i) => i < view_definitions(defs@).len() && i == def_index(
                view_definitions(defs@),
                path@,
            ),
            None => !def_present(view_definitions(defs@), path@),
        },
{
    let ghost dv = view_definitions(defs@);
    proof {
        lemma_def_index(dv, path@);
    }
    let mut i: usize = 0;
    while i < defs.len()
        invariant
            i <= defs@.len(),
            dv == view_definitions(defs@),
            dv.len() == defs@.len(),
            forall|j: int| 0 <= j < i ==> dv[j].path != path@,
        decreases defs@.len() - i,
    {
        if str_eq(defs[i].path.as_str(), path) {
            proof {
                assert(dv[i as int] == defs@[i as int]@);
                assert(dv[i as int].path == path@);
                lemma_def_index(dv, path@);
            }
            return Some(i);
        }
        i = i + 1;
    }
    proof {
        lemma_def_index(dv, path@);
    }
    None
}

/// Index of the first operation with id `id`, if any.
pub fn find_operation(ops: &Vec<Operation>, id: &str) -> (r: Option<usize>)
    ensures
        match r {
            Some(i) => i < view_operations(ops@).len() && i == op_index(
                view_operations(ops@),
                id@,
            ),
            None => op_index(view_operations(ops@), id@) == view_operations(ops@).len(),
        },
{
    let ghost ov = view_operations(ops@);
    let mut i: usize = 0;
    while i < ops.len()
        invariant
            i <= ops@.len(),
            ov == view_operations(ops@),
            ov.len() == ops@.len(),
            forall|j: int| 0 <= j < i ==> ov[j].id != id@,
        decreases ops@.len() - i,
    {
        if str_eq(ops[i].id.as_str(), id) {
            proof {
                assert(ov[i as int] == ops@[i as int]@);
                assert(ov[i as int].id == id@);
                lemma_op_index(ov, id@);
            }
            return Some(i);
        }
        i = i + 1;
    }
    proof {
        lemma_op_index(ov, id@);
    }
    None
}

/// Index of the first optional parameter named `name`, if any.
pub fn find_optional_param(params: &Vec<Parameter>, name: &str) -> (r: Option<usize>)
    ensures
        match r {
            Some(i) => i < view_parameters(params@).len() && i == optional_param_index(
                view_parameters(params@),
                name@,
            ),
            None => optional_param_index(view_parameters(params@), name@) == view_parameters(
                params@,
            ).len(),
        },
{
    let ghost pv = view_parameters(params@);
    let mut i: usize = 0;
    while i < params.len()
        invariant
            i <= params@.len(),
            pv == view_parameters(params@),
            pv.len() == params@.len(),
            forall|j: int| 0 <= j < i ==> !(pv[j].name == name@ && !pv[j].required),
        decreases params@.len() - i,
    {
        if !params[i].required && str_eq(params[i].name.as_str(), name) {
            proof {
                assert(pv[i as int] == params@[i as int]@);
                assert(pv[i as int].name == name@ && !pv[i as int].required);
                lemma_optional_param_index(pv, name@);
            }
            return Some(i);
        }
        i = i + 1;
    }
    proof {
        lemma_optional_param_index(pv, name@);
    }
    None
}

/// Index of the first body parameter, if any.
pub fn find_body_param(params: &Vec<Parameter>) -> (r: Option<usize>)
    ensures
        match r {
            Some(i) => i < view_parameters(params@).len() && i == body_param_index(
                view_parameters(params@),
            ),
            None => body_param_index(view_parameters(params@)) == view_parameters(params@).len(),
        },
{
    let ghost pv = view_parameters(params@);
    let mut i: usize = 0;
    while i < params.len()
        invariant
            i <= params@.len(),
            pv == view_parameters(params@),
            pv.len() == params@.len(),
            forall|j: int| 0 <= j < i ==> pv[j].location != ParameterLocation::Body,
        decreases params@.len() - i,
    {
        let is_body = match params[i].location {
            ParameterLocation::Body => true,
            _ => false,
        };
        if is_body {
            proof {
                assert(pv[i as int] == params@[i as int]@);
                assert(pv[i as int].location == ParameterLocation::Body);
                lemma_body_param_index(pv);
            }
            return Some(i);
        }
        i = i + 1;
    }
    proof {
        lemma_body_param_index(pv);
    }
    None
}

/// Index of the first property named `name`, if any.
pub fn find_property(props: &Vec<Property>, name: &str) -> (r: Option<usize>)
    ensures
        match r {
            Some(i) => i < view_properties(props@).len() && i == prop_index(
                view_properties(props@),
                name@,
            ),
            None => prop_index(view_properties(props@), name@) == view_properties(props@).len(),
        },
{
    proof {
        crate::ir::lemma_view_properties(props@);
    }
    let ghost pv = view_properties(props@);
    let mut i: usize = 0;
    while i < props.len()
        invariant
            i <= props@.len(),
            pv == view_properties(props@),
            pv.len() == props@.len(),
            forall|j: int| 0 <= j < props@.len() ==> pv[j] == crate::ir::view_property(props@[j]),
            forall|j: int| 0 <= j < i ==> pv[j].name != name@,
        decreases props@.len() - i,
    {
        if str_eq(props[i].name.as_str(), name) {
            proof {
                assert(pv[i as int].name == name@);
                lemma_prop_index(pv, name@);
            }
            return Some(i);
        }
        i = i + 1;
    }
    proof {
        lemma_prop_index(pv, name@);
    }
    None
}

/// Whether one of the owned strings equals `n`.
pub fn names_contain(names: &Vec<String>, n: &str) -> (r: bool)
    ensures
        r == crate::ir::view_strings(names@).contains(n@),
{
    let ghost nv = crate::ir::view_strings(names@);
    let mut i: usize = 0;
    while i < names.len()
        invariant
            i <= names@.len(),
            nv == crate::ir::view_strings(names@),
            nv.len() == names@.len(),
            forall|j: int| 0 <= j < i ==> nv[j] != n@,
        decreases names@.len() - i,
    {
        if str_eq(names[i].as_str(), n) {
            proof {
                assert(nv[i as int] == n@);
            }
            return true;
        }
        i = i + 1;
    }
    proof {
        if nv.contains(n@) {
            let k = choose|k: int| 0 <= k < nv.len() && nv[k] == n@;
            assert(nv[k] != n@);
        }
    }
    false
}

/// Insert an owned name into a sorted vector, before the first entry it
/// precedes or equals.
pub fn insert_name_sorted(sorted: &mut Vec<String>, n: String)
    ensures
        crate::ir::view_strings(final(sorted)@) == crate::text::insert_name(
            n@,
            crate::ir::view_strings(old(sorted)@),
        ),
{
    let ghost sv = crate::ir::view_strings(old(sorted)@);
    let mut idx: usize = 0;
    let mut found = false;
    while !found && idx < sorted.len()
        invariant
            idx <= sorted@.len(),
            sorted@ == old(sorted)@,
            sv == crate::ir::view_strings(sorted@),
            sv.len() == sorted@.len(),
            forall|j: int| 0 <= j < idx ==> !crate::text::lex_leq(n@, #[trigger] sv[j]),
            found ==> idx < sv.len() && crate::text::lex_leq(n@, sv[idx as int]),
        decreases sorted@.len() - idx, (if found { 0int } else { 1int }),
    {
        proof {
            assert(sv[idx as int] == sorted@[idx as int]@);
        }
        if crate::text::str_lex_leq(n.as_str(), sorted[idx].as_str()) {
            found = true;
        } else {
            idx = idx + 1;
        }
    }
    proof {
        crate::text::lemma_insert_name_at(n@, sv, idx as int);
    }
    let ghost nv = n@;
    sorted.insert(idx, n);
    proof {
        let out = crate::ir::view_strings(sorted@);
        let target = sv.take(idx as int) + seq![nv] + sv.skip(idx as int);
        assert forall|w: int| 0 <= w < out.len() implies out[w] == target[w] by {
            if w < idx as int {
                assert(sorted@[w] == old(sorted)@[w]);
            } else if w == idx as int {
                assert(sorted@[w]@ == nv);
            } else {
                assert(sorted@[w] == old(sorted)@[w - 1]);
            }
        }
        assert(out =~= target);
    }
}

/// The names in ascending lexicographic order.
pub fn sort_names_vec(names: &Vec<String>) -> (r: Vec<String>)
    ensures
        crate::ir::view_strings(r@) == crate::text::sort_names(crate::ir::view_strings(names@)),
{
    let ghost nv = crate::ir::view_strings(names@);
    let mut r: Vec<String> = Vec::new();
    proof {
        assert(nv.skip(names@.len() as int) =~= Seq::<Seq<char>>::empty());
        assert(crate::ir::view_strings(r@) =~= Seq::<Seq<char>>::empty());
    }
    let mut i: usize = names.len();
    while i > 0
        invariant
            i <= names@.len(),
            nv == crate::ir::view_strings(names@),
            nv.len() == names@.len(),
            crate::ir::view_strings(r@) == crate::text::sort_names(nv.skip(i as int)),
        decreases i,
    {
        i = i - 1;
        proof {
            assert(nv.skip(i as int)[0] == nv[i as int]);
            assert(nv.skip(i as int).drop_first() =~= nv.skip(i as int + 1));
            assert(nv[i as int] == names@[i as int]@);
        }
        insert_name_sorted(&mut r, names[i].clone());
    }
    proof {
        assert(nv.skip(0) =~= nv);
    }
    r
}

/// Insert-or-replace a definition, keeping the position of an existing entry.
pub fn insert_definition(defs: &mut Vec<Definition>, path: String, schema: Schema)
    ensures
        view_definitions(final(defs)@) == def_insert(
            view_definitions(old(defs)@),
            path@,
            schema@,
        ),
{
    let ghost dv = view_definitions(old(defs)@);
    let found = find_definition(defs, path.as_str());
    match found {
        Some(i) => {
            let entry = &mut defs[i];
            *entry = Definition { path, schema };
            proof {
                assert(view_definitions(defs@) =~= def_insert(dv, path@, schema@));
            }
        },
        None => {
            defs.push(Definition { path, schema });
            proof {
                assert(view_definitions(defs@) =~= def_insert(dv, path@, schema@));
            }
        },
    }
}

/// `required_params` over one more element of the underlying sequence.
pub proof fn lemma_required_params_take_step(params: Seq<crate::model::ParameterView>, i: int)
    requires
        0 <= i < params.len(),
    ensures
        required_params(params.take(i + 1)) == if params[i].required {
            required_params(params.take(i)).push(params[i])
        } else {
            required_params(params.take(i))
        },
{
    assert(params.take(i + 1).drop_last() =~= params.take(i));
    assert(params.take(i + 1).last() == params[i]);
}

/// `path_params` over one more element of the underlying sequence.
pub proof fn lemma_path_params_take_step(params: Seq<crate::model::ParameterView>, i: int)
    requires
        0 <= i < params.len(),
    ensures
        path_params(params.take(i + 1)) == if params[i].location == ParameterLocation::Path {
            path_params(params.take(i)).push(params[i])
        } else {
            path_params(params.take(i))
        },
{
    assert(params.take(i + 1).drop_last() =~= params.take(i));
    assert(params.take(i + 1).last() == params[i]);
}

/// The required parameters of `params`, deep-copied, in order.
pub fn filter_required_params(params: &Vec<Parameter>) -> (r: Vec<Parameter>)
    ensures
        view_parameters(r@) == required_params(view_parameters(params@)),
{
    let ghost pv = view_parameters(params@);
    let mut r: Vec<Parameter> = Vec::new();
    let mut i: usize = 0;
    while i < params.len()
        invariant
            i <= params@.len(),
            pv == view_parameters(params@),
            pv.len() == params@.len(),
            view_parameters(r@) == required_params(pv.take(i as int)),
        decreases params@.len() - i,
    {
        proof {
            lemma_required_params_take_step(pv, i as int);
        }
        if params[i].required {
            let ghost prev = view_parameters(r@);
            r.push(params[i].deep_clone());
            proof {
                assert(view_parameters(r@) =~= prev.push(pv[i as int]));
            }
        }
        i = i + 1;
    }
    proof {
        assert(pv.take(pv.len() as int) =~= pv);
    }
    r
}

/// The parameters of `params` located at `Path`, deep-copied, in order.
pub fn filter_path_params(params: &Vec<Parameter>) -> (r: Vec<Parameter>)
    ensures
        view_parameters(r@) == path_params(view_parameters(params@)),
{
    let ghost pv = view_parameters(params@);
    let mut r: Vec<Parameter> = Vec::new();
    let mut i: usize = 0;
    while i < params.len()
        invariant
            i <= params@.len(),
            pv == view_parameters(params@),
            pv.len() == params@.len(),
            view_parameters(r@) == path_params(pv.take(i as int)),
        decreases params@.len() - i,
    {
        proof {
            lemma_path_params_take_step(pv, i as int);
        }
        let is_path = match params[i].location {
            ParameterLocation::Path => true,
            _ => false,
        };
        if is_path {
            let ghost prev = view_parameters(r@);
            r.push(params[i].deep_clone());
            proof {
                assert(view_parameters(r@) =~= prev.push(pv[i as int]));
            }
        }
        i = i + 1;
    }
    proof {
        assert(pv.take(pv.len() as int) =~= pv);
    }
    r
}

} // verus!
