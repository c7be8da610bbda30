//! Builders for the synthesized schemas and parameters that several passes
//! install: a schema that is a crate-relative reference to a well-known
//! definition, and a required parameter carrying such a schema.

use vstd::prelude::*;

use crate::ir::{Parameter, RefPath, Schema, SchemaKind};
use crate::model::{ParameterLocation, ParameterView, RefPathView, RelativeTo, SchemaKindView,
    SchemaView};
use crate::text::str_copy;

verus! {

/// The shape of every synthesized reference schema: a described,
/// crate-relative reference with no resource metadata.
pub open spec fn synthesized_ref_schema(description: Seq<char>, path: Seq<char>) -> SchemaView {
    SchemaView {
        description: Some(description),
        kind: SchemaKindView::Ref(
            RefPathView { path, relative_to: RelativeTo::Crate, can_be_default: None },
        ),
        kubernetes_group_kind_versions: None,
        has_corresponding_list_type: false,
    }
}

/// The shape of every synthesized required parameter referencing a
/// well-known aggregate definition.
pub open spec fn synthesized_ref_param(
    location: ParameterLocation,
    name: Seq<char>,
    description: Seq<char>,
    path: Seq<char>,
) -> ParameterView {
    ParameterView {
        location,
        name,
        required: true,
        schema: synthesized_ref_schema(description, path),
    }
}

/// A described, crate-relative reference schema.
pub fn make_ref_schema(description: &str, path: &str) -> (r: Schema)
    ensures
        r@ == synthesized_ref_schema(description@, path@),
{
    Schema {
        description: Some(str_copy(description)),
        kind: SchemaKind::Ref(
            RefPath { path: str_copy(path), relative_to: RelativeTo::Crate, can_be_default: None },
        ),
        kubernetes_group_kind_versions: None,
        has_corresponding_list_type: false,
    }
}

/// A required parameter whose schema references a well-known definition.
pub fn make_ref_param(
    location: ParameterLocation,
    name: &str,
    description: &str,
    path: &str,
) -> (r: Parameter)
    ensures
        r@ == synthesized_ref_param(location, name@, description@, path@),
{
    Parameter {
        location,
        name: str_copy(name),
        required: true,
        schema: make_ref_schema(description, path),
    }
}

} // verus!
